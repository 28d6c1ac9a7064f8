//! The main loop of the controller: what to do with the bytes drained from the
//! serial port, and how long each frame took.

use vstd::prelude::*;

use crate::daemoncomm::ser_de;
use crate::espled::deframer;
use crate::espled::deframer::{Deframer, Extracted, Extraction};
use crate::ledcomm;
use crate::ledcomm::{clamp_payload_len, state_frame_as_bytes_mut, zero_state_frame};
use crate::ledcomm::{StateFrame, FRAME_LEN, HEADER_LEN, STATE_BYTES};

verus! {

/// The pixels shown for a payload: its bytes from the first LED on, the rest
/// dark.
pub open spec fn shown(pixels: StateFrame, payload: Seq<u8>) -> bool {
    ledcomm::pixel_bytes(pixels@) == payload + ledcomm::zeros(
        (STATE_BYTES - payload.len()) as nat,
    )
}

/// Fills a frame with `payload`, zeros behind it.
pub fn pixels_from_payload(payload: &[u8]) -> (pixels: StateFrame)
    requires
        payload@.len() <= STATE_BYTES,
    ensures
        shown(pixels, payload@),
{
    let mut pixels = zero_state_frame();
    let flat = state_frame_as_bytes_mut(&mut pixels);
    let mut i: usize = 0;
    while i < STATE_BYTES
        invariant
            i <= STATE_BYTES,
            payload@.len() <= STATE_BYTES,
            flat@.len() == STATE_BYTES,
            forall|j: int| 0 <= j < i && j < payload@.len() ==> flat@[j] == payload@[j],
            forall|j: int| payload@.len() <= j < i ==> flat@[j] == 0,
        decreases STATE_BYTES - i,
    {
        flat[i] = if i < payload.len() {
            payload[i]
        } else {
            0
        };
        i += 1;
    }
    assert(ledcomm::pixel_bytes(pixels@) =~= payload@ + ledcomm::zeros(
        (STATE_BYTES - payload@.len()) as nat,
    ));
    pixels
}

/// A frame ready for the strip.
#[derive(Debug, Clone, Copy)]
pub struct ReceivedFrame {
    pub pixels: StateFrame,
    /// Bytes of the frame as it came in, header included.
    pub frame_size: usize,
    /// Time from the frame's header to its last byte.
    pub rx_elapsed_us: u32,
}

/// What the loop does next.
pub enum Step {
    /// Read more bytes.
    Wait,
    /// The buffered bytes declared a frame of this size and were dropped.
    TooLarge(usize),
    /// Show the frame, then report back and step again.
    Dispatch(ReceivedFrame),
}

/// How long a frame took, as reported to the host.
#[derive(Debug, Clone, Copy, PartialEq, Eq, Structural)]
pub struct WriteFeedback {
    pub ingest_us: u32,
    pub copy_us: u32,
    pub spi_us: u32,
    pub total_us: u32,
    pub frame_size: usize,
}

/// Microseconds from `start` to `now` in 32 bits.
pub open spec fn elapsed_us(start: u64, now: u64) -> int {
    if now >= start {
        (now - start) % 0x1_0000_0000
    } else {
        0
    }
}

/// The sum of two times, at most the largest 32-bit number.
pub open spec fn saturated(a: int, b: int) -> int {
    if a + b > u32::MAX {
        u32::MAX as int
    } else {
        a + b
    }
}

impl WriteFeedback {
    /// The report on a frame after it was copied and written to the strip.
    pub fn new(frame: &ReceivedFrame, copy_us: u32, spi_us: u32) -> (feedback: Self)
        ensures
            feedback.ingest_us == frame.rx_elapsed_us,
            feedback.copy_us == copy_us,
            feedback.spi_us == spi_us,
            feedback.frame_size == frame.frame_size,
            feedback.total_us == saturated(
                saturated(frame.rx_elapsed_us as int, copy_us as int),
                spi_us as int,
            ),
    {
        let total_us: u32 = frame.rx_elapsed_us.saturating_add(copy_us).saturating_add(spi_us);
        WriteFeedback {
            ingest_us: frame.rx_elapsed_us,
            copy_us,
            spi_us,
            total_us,
            frame_size: frame.frame_size,
        }
    }
}

/// The state of the controller's main loop.
pub struct FrameLoop {
    deframer: Deframer,
    frame_start: u64,
    frame_in_progress: bool,
    frame_expected: usize,
}

/// What the main loop remembers between reads.
pub struct LoopState {
    pub pending: Seq<u8>,
    pub start: u64,
    pub in_progress: bool,
    pub expected: nat,
}

impl LoopState {
    /// The state once the header at the front of `stream` has been seen.
    pub open spec fn header_seen(self, stream: Seq<u8>, now: u64) -> LoopState {
        if self.in_progress {
            self
        } else {
            LoopState {
                start: now,
                in_progress: true,
                expected: (HEADER_LEN + deframer::declared_len(stream)) as nat,
                ..self
            }
        }
    }

    /// The state with room for more bytes, and for how many.
    pub open spec fn with_room(self) -> (LoopState, int) {
        if self.pending.len() < FRAME_LEN {
            (self, FRAME_LEN - self.pending.len())
        } else {
            (
                LoopState { pending: Seq::<u8>::empty(), in_progress: false, ..self },
                FRAME_LEN as int,
            )
        }
    }

    /// The state after some bytes were read.
    pub open spec fn fed(self, bytes: Seq<u8>) -> LoopState {
        LoopState { pending: self.pending + bytes, ..self }
    }

    /// The state after one step.
    pub open spec fn stepped(self, now: u64) -> LoopState {
        let stream = deframer::resync(self.pending);
        let seen = self.header_seen(stream, now);
        match deframer::extraction(self.pending) {
            (Extraction::Pending, rest) => if rest.len() < HEADER_LEN {
                LoopState { pending: rest, ..self }
            } else {
                LoopState { pending: rest, ..seen }
            },
            (Extraction::Oversized { size }, rest) => LoopState {
                pending: rest,
                in_progress: false,
                ..seen
            },
            (Extraction::Complete { payload }, rest) => LoopState {
                pending: rest,
                start: now,
                in_progress: false,
                expected: 0,
            },
        }
    }
}

impl View for FrameLoop {
    type V = LoopState;

    closed spec fn view(&self) -> LoopState {
        LoopState {
            pending: self.deframer@,
            start: self.frame_start,
            in_progress: self.frame_in_progress,
            expected: self.frame_expected as nat,
        }
    }
}

impl FrameLoop {
    pub fn new(now_us: u64) -> (frame_loop: Self)
        ensures
            frame_loop@ == (LoopState {
                pending: Seq::<u8>::empty(),
                start: now_us,
                in_progress: false,
                expected: 0,
            }),
    {
        FrameLoop {
            deframer: Deframer::new(),
            frame_start: now_us,
            frame_in_progress: false,
            frame_expected: 0,
        }
    }

    /// How many bytes may be read next. A full buffer is dropped first.
    pub fn room(&mut self) -> (room: usize)
        requires
            old(self)@.pending.len() <= FRAME_LEN,
        ensures
            (final(self)@, room as int) == old(self)@.with_room(),
            old(self)@.pending.len() < FRAME_LEN ==> *final(self) == *old(self),
    {
        let have: usize = self.deframer.have();
        if have < FRAME_LEN {
            FRAME_LEN - have
        } else {
            self.deframer.reset();
            self.frame_in_progress = false;
            FRAME_LEN
        }
    }

    /// Takes in what was read.
    pub fn ingest(&mut self, bytes: &[u8])
        ensures
            final(self)@ == old(self)@.fed(bytes@),
    {
        self.deframer.extend(bytes);
    }

    /// Decides what to do with the buffered bytes.
    pub fn step(&mut self, now_us: u64) -> (step: Step)
        ensures
            final(self)@ == old(self)@.stepped(now_us),
            match deframer::extraction(old(self)@.pending).0 {
                Extraction::Pending => step is Wait,
                Extraction::Oversized { size } => step matches Step::TooLarge(n) && n == size,
                Extraction::Complete { payload } => {
                    &&& step is Dispatch
                    &&& shown(
                        step->Dispatch_0.pixels,
                        payload.take(ledcomm::clamped_len(payload.len()) as int),
                    )
                    &&& step->Dispatch_0.frame_size == HEADER_LEN + payload.len()
                    &&& step->Dispatch_0.rx_elapsed_us == elapsed_us(
                        old(self)@.header_seen(
                            deframer::resync(old(self)@.pending),
                            now_us,
                        ).start,
                        now_us,
                    )
                },
            },
    {
        match self.deframer.next() {
            Extracted::Pending => {
                if self.deframer.have() >= HEADER_LEN {
                    let declared: usize = self.deframer.declared();
                    self.see_header(HEADER_LEN + declared, now_us);
                }
                Step::Wait
            },
            Extracted::Oversized(size) => {
                self.see_header(size, now_us);
                self.frame_in_progress = false;
                Step::TooLarge(size)
            },
            Extracted::Complete(payload) => {
                let frame_size: usize = HEADER_LEN + payload.len();
                self.see_header(frame_size, now_us);
                let payload_len: usize = clamp_payload_len(payload.len());
                let elapsed: u64 = now_us.saturating_sub(self.frame_start) % 0x1_0000_0000;
                let (kept, _trimmed) = payload.as_slice().split_at(payload_len);
                let pixels = pixels_from_payload(kept);
                self.frame_in_progress = false;
                self.frame_start = now_us;
                self.frame_expected = 0;
                Step::Dispatch(ReceivedFrame { pixels, frame_size, rx_elapsed_us: elapsed as u32 })
            },
        }
    }

    fn see_header(&mut self, size: usize, now_us: u64)
        ensures
            final(self)@ == (if old(self)@.in_progress {
                old(self)@
            } else {
                LoopState {
                    start: now_us,
                    in_progress: true,
                    expected: size as nat,
                    ..old(self)@
                }
            }),
    {
        if !self.frame_in_progress {
            self.frame_start = now_us;
            self.frame_in_progress = true;
            self.frame_expected = size;
        }
    }
}

/// What the daemon sends for the strip is what the controller shows: the packet of a
/// whole state is delivered at once, whatever follows it, and the pixels that are shown
/// for it are the pixels that were sent.
pub proof fn sent_state_is_shown(sent: StateFrame, more: Seq<u8>, pixels: StateFrame)
    ensures
        deframer::extraction(
            ledcomm::MAGIC@ + ledcomm::le16(900) + ledcomm::pixel_bytes(sent@) + more,
        ) == (Extraction::Complete { payload: ledcomm::pixel_bytes(sent@) }, more),
        shown(
            pixels,
            ledcomm::pixel_bytes(sent@).take(
                ledcomm::clamped_len(ledcomm::pixel_bytes(sent@).len()) as int,
            ),
        ) <==> pixels == sent,
{
    let payload = ledcomm::pixel_bytes(sent@);
    deframer::packet_is_delivered(payload, more);
    assert(payload.take(900) + ledcomm::zeros(0) =~= payload);
    if shown(pixels, payload.take(900)) {
        ser_de::frame_bytes_determine_frame(pixels, sent);
    }
}

/// A frame's time runs from the moment its header was there, through whatever waits follow,
/// to its end; then the next frame's time begins anew.
pub proof fn frame_is_timed_from_its_header(
    state: LoopState,
    first: u64,
    later: u64,
    more: Seq<u8>,
)
    requires
        !state.in_progress,
        deframer::extraction(state.pending).0 is Pending,
        deframer::resync(state.pending).len() >= HEADER_LEN,
    ensures
        ({
            let waiting = state.stepped(first);
            let fed = LoopState { pending: waiting.pending + more, ..waiting };
            &&& waiting.in_progress
            &&& waiting.start == first
            &&& fed.header_seen(deframer::resync(fed.pending), later).start == first
            &&& first <= later < first + 0x1_0000_0000 ==> elapsed_us(first, later) == later
                - first
            &&& deframer::extraction(fed.pending).0 is Complete ==> !fed.stepped(later).in_progress
                && fed.stepped(later).start == later && fed.stepped(later).pending
                == deframer::extraction(fed.pending).1
            &&& deframer::extraction(fed.pending).0 is Pending ==> fed.stepped(later).in_progress
                ==> fed.stepped(later).start == first
        }),
{
}

/// A frame that comes whole in one read takes no time, and bytes without a header start no
/// frame.
pub proof fn whole_frame_takes_no_time(state: LoopState, now: u64)
    requires
        !state.in_progress,
    ensures
        deframer::extraction(state.pending).0 is Complete ==> elapsed_us(
            state.header_seen(deframer::resync(state.pending), now).start,
            now,
        ) == 0,
        deframer::resync(state.pending).len() < HEADER_LEN ==> !state.stepped(now).in_progress
            && state.stepped(now).start == state.start,
{
}

/// There is always room for another byte and never for more than one frame. Bytes are
/// dropped only where a whole frame's worth of them is no frame.
pub proof fn reader_always_has_room(state: LoopState)
    requires
        state.pending.len() <= FRAME_LEN,
    ensures
        0 < state.with_room().1 <= 906,
        state.with_room().0.pending.len() + state.with_room().1 == 906,
        state.pending.len() < 906 ==> state.with_room().0 == state,
        state.pending.len() == 906 ==> state.with_room().0.pending.len() == 0
            && !state.with_room().0.in_progress,
{
}

/// Bytes are looked at in the order in which they were read, however they were read.
pub proof fn bytes_are_read_in_order(state: LoopState, first: Seq<u8>, second: Seq<u8>)
    ensures
        state.fed(first).fed(second) == state.fed(first + second),
        state.fed(first).pending == state.pending + first,
        state.fed(first).start == state.start,
        state.fed(first).in_progress == state.in_progress,
{
    assert(state.pending + first + second =~= state.pending + (first + second));
}

} // verus!
