//! Frames sent to the LED controller: four magic bytes, a little-endian payload
//! length and one byte triple per LED.

use vstd::prelude::*;

verus! {

/// The bytes `LEDS` that open every frame.
pub const MAGIC: [u8; 4] = [0x4c, 0x45, 0x44, 0x53];

pub const MAGIC_LEN: usize = 4;

pub const LEN_LEN: usize = 2;

pub const HEADER_LEN: usize = 6;

pub const BYTES_PER_LED: usize = 3;

/// Sixty LEDs per meter, five meters.
pub const NUM_LEDS: usize = 300;

pub const STATE_BYTES: usize = 900;

pub const FRAME_LEN: usize = 906;

pub type Pixel = [u8; BYTES_PER_LED];

pub type StateFrame = [Pixel; NUM_LEDS];

/// The pixels' channels one after the other.
pub open spec fn pixel_bytes(pixels: Seq<Pixel>) -> Seq<u8> {
    Seq::new(3 * pixels.len(), |i: int| pixels[i / 3][i % 3])
}

/// `n` dark pixels.
pub open spec fn dark(n: nat) -> Seq<Pixel> {
    Seq::new(n, |i: int| [0u8, 0u8, 0u8])
}

/// `n` zero bytes.
pub open spec fn zeros(n: nat) -> Seq<u8> {
    Seq::new(n, |i: int| 0u8)
}

/// A 16-bit number as two bytes, least significant first.
pub open spec fn le16(n: u16) -> Seq<u8> {
    seq![(n % 256) as u8, (n / 256) as u8]
}

#[derive(Debug, Clone, Copy)]
pub struct Frame {
    pub magic: [u8; MAGIC_LEN],
    pub len: u16,
    pub data: StateFrame,
}

#[derive(Debug, Clone, Copy, PartialEq, Eq, Structural)]
pub enum FrameError {
    PayloadTooLarge,
    MisalignedPayload,
}

impl FrameError {
    /// The text shown for the error.
    pub fn message(&self) -> (text: &'static str)
        ensures
            text@ == match self {
                FrameError::PayloadTooLarge => "frame payload exceeds maximum capacity"@,
                FrameError::MisalignedPayload => "frame payload length must be a multiple of BYTES_PER_LED"@,
            },
    {
        match self {
            FrameError::PayloadTooLarge => "frame payload exceeds maximum capacity",
            FrameError::MisalignedPayload => "frame payload length must be a multiple of BYTES_PER_LED",
        }
    }
}

/// Calls `<[[u8; 3]]>::as_flattened` of std. Its result holds the channels of
/// the pixels one after the other.
#[verifier::external_body]
fn flattened(pixels: &[Pixel]) -> (bytes: &[u8])
    ensures
        bytes@ == pixel_bytes(pixels@),
{
    pixels.as_flattened()
}

/// Calls `<[[u8; 3]]>::as_flattened_mut` of std. What is written through the
/// returned slice is what the pixels hold afterwards; their number stays.
#[verifier::external_body]
fn flattened_mut(pixels: &mut [Pixel]) -> (bytes: &mut [u8])
    ensures
        bytes@ == pixel_bytes(old(pixels)@),
        final(bytes)@ == pixel_bytes(final(pixels)@),
        final(pixels)@.len() == old(pixels)@.len(),
{
    pixels.as_flattened_mut()
}

pub fn state_frame_as_bytes(frame: &StateFrame) -> (bytes: &[u8])
    ensures
        bytes@ == pixel_bytes(frame@),
        bytes@.len() == STATE_BYTES,
{
    flattened(frame)
}

pub fn state_frame_as_bytes_mut(frame: &mut StateFrame) -> (bytes: &mut [u8])
    ensures
        bytes@ == pixel_bytes(old(frame)@),
        bytes@.len() == STATE_BYTES,
        final(bytes)@ == pixel_bytes(final(frame)@),
{
    flattened_mut(frame)
}

pub fn zero_state_frame() -> (frame: StateFrame)
    ensures
        frame@ == dark(300),
{
    let frame: StateFrame = [[0u8; BYTES_PER_LED]; NUM_LEDS];
    assert(frame@ =~= dark(300)) by {
        assert forall|i: int| 0 <= i < 300 implies frame@[i] == [0u8, 0u8, 0u8] by {
            assert(frame@[i] =~= [0u8, 0u8, 0u8]);
        }
    }
    frame
}

impl Frame {
    /// The frame as it stands on the wire.
    pub open spec fn bytes(&self) -> Seq<u8> {
        self.magic@ + le16(self.len) + pixel_bytes(self.data@)
    }

    /// How many bytes of the frame its length field covers, header included.
    pub open spec fn used(&self) -> int {
        if HEADER_LEN + self.len <= FRAME_LEN {
            HEADER_LEN + self.len
        } else {
            FRAME_LEN as int
        }
    }

    /// How many of the pixels the length field covers.
    pub open spec fn covered(&self) -> int {
        if self.len / 3 <= NUM_LEDS {
            (self.len / 3) as int
        } else {
            NUM_LEDS as int
        }
    }

    /// The frame that carries exactly `pixels`, with every other pixel dark.
    pub open spec fn carries(&self, pixels: Seq<Pixel>) -> bool {
        &&& self.magic@ == MAGIC@
        &&& self.len == 3 * pixels.len()
        &&& pixels.len() <= NUM_LEDS
        &&& self.data@ == pixels + dark((NUM_LEDS - pixels.len()) as nat)
    }

    pub fn new(magic: [u8; MAGIC_LEN], len: u16) -> (frame: Self)
        ensures
            frame.magic == magic,
            frame.len == len,
            frame.data@ == dark(300),
    {
        Frame { magic, len, data: zero_state_frame() }
    }

    pub fn as_bytes(&self) -> (bytes: Vec<u8>)
        ensures
            bytes@ == self.bytes(),
            bytes@.len() == FRAME_LEN,
    {
        let mut bytes: Vec<u8> = Vec::with_capacity(FRAME_LEN);
        bytes.extend_from_slice(&self.magic);
        bytes.push((self.len % 256) as u8);
        bytes.push((self.len / 256) as u8);
        bytes.extend_from_slice(state_frame_as_bytes(&self.data));
        assert(bytes@ =~= self.bytes());
        bytes
    }

    /// Overwrites the whole frame with `bytes`.
    pub fn as_bytes_mut(&mut self, bytes: &[u8])
        requires
            bytes@.len() == FRAME_LEN,
        ensures
            final(self).bytes() == bytes@,
    {
        self.prefix_mut(bytes);
        assert(self.bytes() =~= bytes@);
    }

    /// Overwrites the first `bytes.len()` bytes of the frame.
    fn prefix_mut(&mut self, bytes: &[u8])
        requires
            HEADER_LEN <= bytes@.len() <= FRAME_LEN,
        ensures
            final(self).bytes() == bytes@ + old(self).bytes().skip(bytes@.len() as int),
    {
        let n: usize = bytes.len();
        self.magic = [bytes[0], bytes[1], bytes[2], bytes[3]];
        self.len = bytes[4] as u16 + bytes[5] as u16 * 256;
        let flat = state_frame_as_bytes_mut(&mut self.data);
        let ghost old_flat = flat@;
        let mut i: usize = HEADER_LEN;
        while i < n
            invariant
                HEADER_LEN <= i <= n,
                n == bytes@.len(),
                n <= FRAME_LEN,
                flat@.len() == STATE_BYTES,
                forall|j: int| 0 <= j < i - 6 ==> flat@[j] == bytes@[j + 6],
                forall|j: int| i - 6 <= j < STATE_BYTES ==> flat@[j] == old_flat[j],
            decreases n - i,
        {
            flat[i - HEADER_LEN] = bytes[i];
            i += 1;
        }
        assert(self.bytes() =~= bytes@ + old(self).bytes().skip(bytes@.len() as int));
    }

    pub fn packet(&self) -> (bytes: Vec<u8>)
        ensures
            bytes@ == self.bytes().take(self.used()),
    {
        let used: usize = HEADER_LEN + self.len as usize;
        let mut bytes = self.as_bytes();
        if used < FRAME_LEN {
            bytes.truncate(used);
        }
        assert(bytes@ =~= self.bytes().take(self.used()));
        bytes
    }

    /// Overwrites the part of the frame that its length field covers.
    pub fn packet_mut(&mut self, bytes: &[u8])
        requires
            bytes@.len() == old(self).used(),
        ensures
            final(self).bytes() == bytes@ + old(self).bytes().skip(old(self).used()),
    {
        self.prefix_mut(bytes);
    }

    pub fn pixel_count(&self) -> (count: usize)
        ensures
            count == self.len / 3,
    {
        (self.len as usize) / BYTES_PER_LED
    }

    pub fn pixels(&self) -> (pixels: &[Pixel])
        ensures
            pixels@ == self.data@.take(self.covered()),
    {
        let mut count: usize = self.pixel_count();
        if count > NUM_LEDS {
            count = NUM_LEDS;
        }
        let (head, _tail) = self.data.as_slice().split_at(count);
        head
    }

    pub fn pixels_mut(&mut self) -> (pixels: &mut [Pixel])
        ensures
            pixels@ == old(self).data@.take(old(self).covered()),
            final(self).magic == old(self).magic,
            final(self).len == old(self).len,
            final(self).data@ == final(pixels)@ + old(self).data@.skip(old(self).covered()),
    {
        let mut count: usize = self.pixel_count();
        if count > NUM_LEDS {
            count = NUM_LEDS;
        }
        let data: &mut [Pixel] = &mut self.data;
        let (head, _tail) = data.split_at_mut(count);
        head
    }

    pub fn payload_bytes(&self) -> (bytes: &[u8])
        ensures
            bytes@ == self.bytes().subrange(HEADER_LEN as int, self.used()),
    {
        let mut used: usize = self.len as usize;
        if used > STATE_BYTES {
            used = STATE_BYTES;
        }
        let flat = state_frame_as_bytes(&self.data);
        let (head, _tail) = flat.split_at(used);
        assert(head@ =~= self.bytes().subrange(HEADER_LEN as int, self.used()));
        head
    }

    pub fn payload_bytes_mut(&mut self) -> (bytes: &mut [u8])
        ensures
            bytes@ == old(self).bytes().subrange(HEADER_LEN as int, old(self).used()),
            final(self).bytes() == old(self).bytes().take(HEADER_LEN as int) + final(bytes)@
                + old(self).bytes().skip(old(self).used()),
            final(self).magic == old(self).magic,
            final(self).len == old(self).len,
    {
        let mut used: usize = self.len as usize;
        if used > STATE_BYTES {
            used = STATE_BYTES;
        }
        let flat = state_frame_as_bytes_mut(&mut self.data);
        let (head, _tail) = flat.split_at_mut(used);
        assert(head@ =~= old(self).bytes().subrange(HEADER_LEN as int, old(self).used()));
        head
    }

    pub fn is_magic_valid(&self) -> (valid: bool)
        ensures
            valid == (self.magic@ == MAGIC@),
    {
        let valid = self.magic[0] == MAGIC[0] && self.magic[1] == MAGIC[1] && self.magic[2]
            == MAGIC[2] && self.magic[3] == MAGIC[3];
        assert(valid ==> self.magic@ =~= MAGIC@);
        valid
    }

    /// Makes the frame carry `pixels`; more than fit leave it as it was.
    pub fn write_pixels(&mut self, pixels: &[Pixel]) -> (result: Result<(), FrameError>)
        ensures
            pixels@.len() <= NUM_LEDS ==> result is Ok && final(self).carries(pixels@),
            pixels@.len() > NUM_LEDS ==> result == Err::<(), FrameError>(
                FrameError::PayloadTooLarge,
            ) && *final(self) == *old(self),
    {
        if pixels.len() > NUM_LEDS {
            return Err(FrameError::PayloadTooLarge);
        }
        self.magic = MAGIC;
        self.len = (pixels.len() * BYTES_PER_LED) as u16;
        self.fill(pixels, pixels.len());
        assert(pixels@.take(pixels@.len() as int) =~= pixels@);
        Ok(())
    }

    /// Copies the first `count` of `pixels` to the front and darkens the rest.
    fn fill(&mut self, pixels: &[Pixel], count: usize)
        requires
            count <= pixels@.len(),
            count <= NUM_LEDS,
        ensures
            final(self).magic == old(self).magic,
            final(self).len == old(self).len,
            final(self).data@ == pixels@.take(count as int) + dark((NUM_LEDS - count) as nat),
    {
        let mut i: usize = 0;
        while i < NUM_LEDS
            invariant
                i <= NUM_LEDS,
                count <= NUM_LEDS,
                count <= pixels@.len(),
                self.magic == old(self).magic,
                self.len == old(self).len,
                forall|j: int| 0 <= j < i && j < count ==> self.data@[j] == pixels@[j],
                forall|j: int| count <= j < i ==> self.data@[j] == [0u8, 0u8, 0u8],
            decreases NUM_LEDS - i,
        {
            if i < count {
                self.data[i] = pixels[i];
            } else {
                self.data[i] = [0u8, 0u8, 0u8];
            }
            i += 1;
        }
        assert(self.data@ =~= pixels@.take(count as int) + dark((NUM_LEDS - count) as nat));
    }

    /// Makes the frame carry `pixels`. Where there are more than fit, the magic
    /// and every pixel have been overwritten by the time that shows; the length
    /// keeps its value.
    pub fn write_pixels_iter(&mut self, pixels: Vec<Pixel>) -> (result: Result<(), FrameError>)
        ensures
            pixels@.len() <= NUM_LEDS ==> result is Ok && final(self).carries(pixels@),
            pixels@.len() > NUM_LEDS ==> {
                &&& result == Err::<(), FrameError>(FrameError::PayloadTooLarge)
                &&& final(self).magic@ == MAGIC@
                &&& final(self).len == old(self).len
                &&& final(self).data@ == pixels@.take(NUM_LEDS as int)
            },
    {
        self.magic = MAGIC;
        if pixels.len() > NUM_LEDS {
            self.fill(pixels.as_slice(), NUM_LEDS);
            assert(self.data@ =~= pixels@.take(NUM_LEDS as int));
            return Err(FrameError::PayloadTooLarge);
        }
        self.fill(pixels.as_slice(), pixels.len());
        assert(pixels@.take(pixels@.len() as int) =~= pixels@);
        self.len = (pixels.len() * BYTES_PER_LED) as u16;
        Ok(())
    }

    /// Makes `payload` the frame's payload, with zeros behind it; a payload that
    /// does not fit or splits a pixel leaves the frame as it was.
    pub fn write_payload_bytes(&mut self, payload: &[u8]) -> (result: Result<(), FrameError>)
        ensures
            payload@.len() > STATE_BYTES ==> result == Err::<(), FrameError>(
                FrameError::PayloadTooLarge,
            ),
            payload@.len() <= STATE_BYTES && payload@.len() % 3 != 0 ==> result == Err::<
                (),
                FrameError,
            >(FrameError::MisalignedPayload),
            result is Err ==> *final(self) == *old(self),
            payload@.len() <= STATE_BYTES && payload@.len() % 3 == 0 ==> {
                &&& result is Ok
                &&& final(self).bytes() == MAGIC@ + le16(payload@.len() as u16) + payload@ + zeros(
                    (STATE_BYTES - payload@.len()) as nat,
                )
                &&& final(self).len == payload@.len()
            },
    {
        if payload.len() > STATE_BYTES {
            return Err(FrameError::PayloadTooLarge);
        }
        if payload.len() % BYTES_PER_LED != 0 {
            return Err(FrameError::MisalignedPayload);
        }
        self.magic = MAGIC;
        self.len = payload.len() as u16;
        let flat = state_frame_as_bytes_mut(&mut self.data);
        let mut i: usize = 0;
        while i < STATE_BYTES
            invariant
                i <= STATE_BYTES,
                payload@.len() <= STATE_BYTES,
                flat@.len() == STATE_BYTES,
                forall|j: int| 0 <= j < i && j < payload@.len() ==> flat@[j] == payload@[j],
                forall|j: int| payload@.len() <= j < i ==> flat@[j] == 0,
            decreases STATE_BYTES - i,
        {
            if i < payload.len() {
                flat[i] = payload[i];
            } else {
                flat[i] = 0;
            }
            i += 1;
        }
        assert(self.bytes() =~= MAGIC@ + le16(payload@.len() as u16) + payload@ + zeros(
            (STATE_BYTES - payload@.len()) as nat,
        ));
        Ok(())
    }

    pub fn from_pixels(pixels: &[Pixel]) -> (result: Result<Self, FrameError>)
        ensures
            pixels@.len() <= NUM_LEDS ==> result is Ok && result->Ok_0.carries(pixels@),
            pixels@.len() > NUM_LEDS ==> result == Err::<Self, FrameError>(
                FrameError::PayloadTooLarge,
            ),
    {
        let mut frame = Frame::default();
        match frame.write_pixels(pixels) {
            Ok(()) => Ok(frame),
            Err(err) => Err(err),
        }
    }

    pub fn from_payload_bytes(payload: &[u8]) -> (result: Result<Self, FrameError>)
        ensures
            payload@.len() > STATE_BYTES ==> result == Err::<Self, FrameError>(
                FrameError::PayloadTooLarge,
            ),
            payload@.len() <= STATE_BYTES && payload@.len() % 3 != 0 ==> result == Err::<
                Self,
                FrameError,
            >(FrameError::MisalignedPayload),
            payload@.len() <= STATE_BYTES && payload@.len() % 3 == 0 ==> {
                &&& result is Ok
                &&& result->Ok_0.bytes() == MAGIC@ + le16(payload@.len() as u16) + payload@ + zeros(
                    (STATE_BYTES - payload@.len()) as nat,
                )
                &&& result->Ok_0.len == payload@.len()
            },
    {
        let mut frame = Frame::default();
        match frame.write_payload_bytes(payload) {
            Ok(()) => Ok(frame),
            Err(err) => Err(err),
        }
    }
}

impl Default for Frame {
    fn default() -> (frame: Self)
        ensures
            frame.magic@ == zeros(4),
            frame.len == 0,
            frame.data@ == dark(300),
    {
        let magic: [u8; MAGIC_LEN] = [0u8; MAGIC_LEN];
        assert(magic@ =~= zeros(4));
        Frame { magic, len: 0, data: zero_state_frame() }
    }
}

/// The largest payload length that is at most `len`, fits a frame and splits no
/// pixel.
pub open spec fn clamped_len(len: nat) -> nat {
    if len >= STATE_BYTES {
        STATE_BYTES as nat
    } else {
        (len - len % 3) as nat
    }
}

pub fn clamp_payload_len(len: usize) -> (clamped: usize)
    ensures
        clamped == clamped_len(len as nat),
{
    let capped: usize = if len < STATE_BYTES {
        len
    } else {
        STATE_BYTES
    };
    capped - (capped % BYTES_PER_LED)
}

/// A clamped length fits a frame, splits no pixel, is at most the length it was
/// made from, and no longer length has these three properties.
pub proof fn clamped_len_is_greatest(len: nat, other: nat)
    requires
        other <= len,
        other <= STATE_BYTES,
        other % 3 == 0,
    ensures
        clamped_len(len) <= len,
        clamped_len(len) <= STATE_BYTES,
        clamped_len(len) % 3 == 0,
        other <= clamped_len(len),
        clamped_len(clamped_len(len)) == clamped_len(len),
{
}

/// A frame that carries `pixels` covers exactly them, and its packet is the
/// header followed by their channels.
pub proof fn carried_pixels_are_read_back(frame: Frame, pixels: Seq<Pixel>)
    requires
        frame.carries(pixels),
    ensures
        frame.data@.take(frame.covered()) == pixels,
        frame.bytes().take(frame.used()) == MAGIC@ + le16((3 * pixels.len()) as u16) + pixel_bytes(
            pixels,
        ),
        frame.bytes().subrange(HEADER_LEN as int, frame.used()) == pixel_bytes(pixels),
        frame.bytes().skip(frame.used()) == zeros((STATE_BYTES - 3 * pixels.len()) as nat),
{
    assert(frame.covered() == pixels.len());
    assert(frame.data@.take(frame.covered()) =~= pixels);
    assert(frame.bytes().take(frame.used()) =~= MAGIC@ + le16((3 * pixels.len()) as u16)
        + pixel_bytes(pixels));
    assert(frame.bytes().subrange(HEADER_LEN as int, frame.used()) =~= pixel_bytes(pixels));
    assert(frame.bytes().skip(frame.used()) =~= zeros((STATE_BYTES - 3 * pixels.len()) as nat));
}

/// A frame made of a payload gives that payload back: as its payload, and behind
/// the header of its packet.
pub proof fn written_payload_is_read_back(frame: Frame, payload: Seq<u8>)
    requires
        payload.len() <= STATE_BYTES,
        payload.len() % 3 == 0,
        frame.len == payload.len(),
        frame.bytes() == MAGIC@ + le16(payload.len() as u16) + payload + zeros(
            (STATE_BYTES - payload.len()) as nat,
        ),
    ensures
        frame.bytes().subrange(HEADER_LEN as int, frame.used()) == payload,
        frame.bytes().take(frame.used()) == MAGIC@ + le16(payload.len() as u16) + payload,
{
    assert(frame.bytes().subrange(HEADER_LEN as int, frame.used()) =~= payload);
    assert(frame.bytes().take(frame.used()) =~= MAGIC@ + le16(payload.len() as u16) + payload);
}

/// Frames with the same bytes are the same frame.
pub proof fn bytes_determine_frame(a: Frame, b: Frame)
    requires
        a.bytes() == b.bytes(),
    ensures
        a.magic@ == b.magic@,
        a.len == b.len,
        a.data@ == b.data@,
{
    assert forall|i: int| 0 <= i < 4 implies a.magic@[i] == b.magic@[i] by {
        assert(a.bytes()[i] == a.magic@[i]);
        assert(b.bytes()[i] == b.magic@[i]);
    }
    assert(a.magic@ =~= b.magic@);
    assert(a.bytes()[4] == (a.len % 256) as u8 && a.bytes()[5] == (a.len / 256) as u8);
    assert(b.bytes()[4] == (b.len % 256) as u8 && b.bytes()[5] == (b.len / 256) as u8);
    assert forall|i: int| 0 <= i < 300 implies a.data@[i] == b.data@[i] by {
        assert forall|c: int| 0 <= c < 3 implies a.data@[i]@[c] == b.data@[i]@[c] by {
            assert(a.bytes()[6 + 3 * i + c] == pixel_bytes(a.data@)[3 * i + c]);
            assert(b.bytes()[6 + 3 * i + c] == pixel_bytes(b.data@)[3 * i + c]);
        }
        assert(a.data@[i] =~= b.data@[i]);
    }
    assert(a.data@ =~= b.data@);
}

/// On the wire a frame is the letters `LEDS`, the length with its lower byte first, and the
/// pixels one after the other, red, green and blue in turn.
pub proof fn frame_lies_on_wire_in_order(frame: Frame, led: int, channel: int)
    requires
        0 <= led < 300,
        0 <= channel < 3,
    ensures
        frame.bytes().len() == 906,
        forall|i: int| 0 <= i < 4 ==> #[trigger] frame.bytes()[i] == frame.magic@[i],
        frame.bytes()[4] + 256 * frame.bytes()[5] == frame.len,
        frame.bytes()[6 + 3 * led + channel] == frame.data@[led]@[channel],
        MAGIC@ == seq![76u8, 69u8, 68u8, 83u8],
{
    let i = 3 * led + channel;
    assert(i / 3 == led && i % 3 == channel);
    assert(frame.bytes()[6 + i] == pixel_bytes(frame.data@)[i]);
    assert(MAGIC@ =~= seq![76u8, 69u8, 68u8, 83u8]);
}

} // verus!
