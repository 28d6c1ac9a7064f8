//! The LED controller on a serial port.

use vstd::prelude::*;

use crate::daemoncomm::{Color, LedStripState};
use crate::ledcomm;
use crate::ledcomm::{Frame, MAGIC, NUM_LEDS, STATE_BYTES};

verus! {

pub const DEFAULT_BAUD: u32 = 5_000_000;

pub const CONNECT_TIMEOUT_MS: u64 = 100;

/// The environment variable that names the port.
pub const ENV_PORT: &'static str = "WAYLED_ESP32_PORT";

pub const RX_BUFFER_LEN: usize = 512;

/// The frame that is sent to the controller.
#[derive(Debug, Clone, Copy)]
pub struct Esp32Device {
    frame: Frame,
}

impl Esp32Device {
    pub closed spec fn held(&self) -> Frame {
        self.frame
    }

    pub fn new() -> (device: Self)
        ensures
            device.held().magic@ == MAGIC@,
            device.held().len == STATE_BYTES,
            device.held().data@ == ledcomm::dark(300),
    {
        Esp32Device { frame: Frame::new(MAGIC, 900) }
    }

    /// The packet that shows one colour on the whole strip.
    pub fn send_static_color(&mut self, color: Color) -> (packet: Vec<u8>)
        ensures
            packet@ == MAGIC@ + ledcomm::le16(900) + ledcomm::pixel_bytes(
                Seq::new(300, |i: int| color),
            ),
            final(self).held().carries(Seq::new(300, |i: int| color)),
    {
        self.frame.magic = MAGIC;
        self.frame.len = 900;
        let mut i: usize = 0;
        while i < NUM_LEDS
            invariant
                i <= NUM_LEDS,
                self.frame.magic@ == MAGIC@,
                self.frame.len == 900,
                forall|j: int| 0 <= j < i ==> #[trigger] self.frame.data@[j] == color,
            decreases NUM_LEDS - i,
        {
            self.frame.data[i] = color;
            i += 1;
        }
        proof {
            let shown = Seq::new(300, |i: int| color);
            assert(self.frame.data@ =~= shown + ledcomm::dark(0));
            ledcomm::carried_pixels_are_read_back(self.frame, shown);
        }
        self.write_frame()
    }

    /// The packet that shows a frame on the strip.
    pub fn send_strip_state(&mut self, state: &LedStripState) -> (packet: Vec<u8>)
        ensures
            packet@ == MAGIC@ + ledcomm::le16(900) + ledcomm::pixel_bytes(state@),
            final(self).held().carries(state@),
    {
        self.frame.magic = MAGIC;
        self.frame.len = 900;
        self.frame.data = *state;
        proof {
            assert(self.frame.data@ =~= state@ + ledcomm::dark(0));
            ledcomm::carried_pixels_are_read_back(self.frame, state@);
        }
        self.write_frame()
    }

    /// The packet that makes the strip dark before the port is closed.
    pub fn close(&mut self) -> (packet: Vec<u8>)
        ensures
            packet@ == MAGIC@ + ledcomm::le16(900) + ledcomm::zeros(900),
            final(self).held().carries(ledcomm::dark(300)),
    {
        let packet = self.send_static_color([0, 0, 0]);
        assert(Seq::new(300, |i: int| [0u8, 0u8, 0u8]) =~= ledcomm::dark(300));
        assert(ledcomm::pixel_bytes(Seq::new(300, |i: int| [0u8, 0u8, 0u8])) =~= ledcomm::zeros(
            900,
        ));
        packet
    }

    fn write_frame(&self) -> (packet: Vec<u8>)
        ensures
            packet@ == self.held().bytes().take(self.held().used()),
    {
        self.frame.packet()
    }
}

/// What is known of a serial port on USB.
#[derive(Debug)]
pub struct UsbPort {
    pub vid: u16,
    pub product: Option<String>,
}

/// A serial port.
#[derive(Debug)]
pub struct PortInfo {
    pub port_name: String,
    pub usb: Option<UsbPort>,
}

/// Whether `needle` stands in `text` at position `at`.
pub open spec fn occurs_at(text: Seq<char>, needle: Seq<char>, at: int) -> bool {
    0 <= at && at + needle.len() <= text.len() && text.subrange(at, at + needle.len()) == needle
}

/// Whether `needle` stands somewhere in `text`.
pub open spec fn occurs(text: Seq<char>, needle: Seq<char>) -> bool {
    exists|at: int| occurs_at(text, needle, at)
}

/// The upper-case form of an ASCII letter; anything else stays.
pub open spec fn upper(c: char) -> char {
    if 'a' <= c && c <= 'z' {
        (c as u32 - 32) as char
    } else {
        c
    }
}

pub open spec fn uppered(text: Seq<char>) -> Seq<char> {
    Seq::new(text.len(), |i: int| upper(text[i]))
}

impl UsbPort {
    /// Whether the vendor makes the controller, or the product is named after it.
    pub open spec fn is_esp32(&self) -> bool {
        ||| self.vid == 0x303A
        ||| self.vid == 0x10C4
        ||| self.product matches Some(name) && occurs(uppered(name@), "ESP"@)
    }
}

impl PortInfo {
    pub open spec fn is_esp32(&self) -> bool {
        self.usb matches Some(usb) && usb.is_esp32()
    }

    /// Whether the port is named like one of a USB device.
    pub open spec fn is_likely(&self) -> bool {
        ||| occurs(self.port_name@, "ttyACM"@)
        ||| occurs(self.port_name@, "ttyUSB"@)
        ||| occurs(self.port_name@, "cu.usb"@)
    }
}

/// The characters of a text.
fn characters(text: &str) -> (chars: Vec<char>)
    ensures
        chars@ == text@,
{
    let mut chars: Vec<char> = Vec::new();
    let n: usize = text.unicode_len();
    let mut i: usize = 0;
    while i < n
        invariant
            i <= n,
            n == text@.len(),
            chars@ == text@.take(i as int),
        decreases n - i,
    {
        chars.push(text.get_char(i));
        i += 1;
        assert(chars@ =~= text@.take(i as int));
    }
    assert(text@.take(n as int) =~= text@);
    chars
}

/// Whether `needle` stands somewhere in `text`.
fn contains(text: &Vec<char>, needle: &Vec<char>) -> (found: bool)
    ensures
        found == occurs(text@, needle@),
{
    if needle.len() > text.len() {
        return false;
    }
    let mut at: usize = 0;
    while at <= text.len() - needle.len()
        invariant
            needle@.len() <= text@.len(),
            at <= text@.len() - needle@.len() + 1,
            forall|a: int| 0 <= a < at ==> !occurs_at(text@, needle@, a),
        decreases text@.len() - at + 1,
    {
        assert(text.len() == text@.len());
        let mut i: usize = 0;
        while i < needle.len() && text[at + i] == needle[i]
            invariant
                i <= needle@.len(),
                needle@.len() <= text@.len() <= usize::MAX,
                at <= text@.len() - needle@.len(),
                forall|j: int| 0 <= j < i ==> text@[at + j] == needle@[j],
            decreases needle@.len() - i,
        {
            i += 1;
        }
        if i == needle.len() {
            assert(text@.subrange(at as int, at + needle@.len()) =~= needle@);
            assert(occurs_at(text@, needle@, at as int));
            return true;
        }
        assert(!occurs_at(text@, needle@, at as int)) by {
            let window = text@.subrange(at as int, at + needle@.len());
            assert(window[i as int] == text@[at + i]);
        }
        at += 1;
    }
    false
}

/// Whether the name holds the controller's, in any case.
fn names_esp(name: &Vec<char>) -> (found: bool)
    ensures
        found == occurs(uppered(name@), "ESP"@),
{
    proof {
        reveal_strlit("ESP");
    }
    if name.len() < 3 {
        return false;
    }
    let mut at: usize = 0;
    while at <= name.len() - 3
        invariant
            3 <= name@.len(),
            at <= name@.len() - 2,
            "ESP"@ == seq!['E', 'S', 'P'],
            forall|a: int| 0 <= a < at ==> !occurs_at(uppered(name@), "ESP"@, a),
        decreases name@.len() - at,
    {
        let e = name[at];
        let s = name[at + 1];
        let p = name[at + 2];
        let found = (e == 'E' || e == 'e') && (s == 'S' || s == 's') && (p == 'P' || p == 'p');
        let ghost window = uppered(name@).subrange(at as int, at + 3);
        assert(window[0] == upper(e) && window[1] == upper(s) && window[2] == upper(p));
        if found {
            assert(window =~= "ESP"@);
            assert(occurs_at(uppered(name@), "ESP"@, at as int));
            return true;
        }
        assert(!occurs_at(uppered(name@), "ESP"@, at as int));
        at += 1;
    }
    false
}

/// Whether a USB device is the controller.
pub fn is_esp32_usb(usb: &UsbPort) -> (found: bool)
    ensures
        found == usb.is_esp32(),
{
    if usb.vid == 0x303A || usb.vid == 0x10C4 {
        return true;
    }
    match &usb.product {
        Some(name) => names_esp(&characters(name.as_str())),
        None => false,
    }
}

fn is_likely_port(info: &PortInfo) -> (found: bool)
    ensures
        found == info.is_likely(),
{
    let name = characters(info.port_name.as_str());
    contains(&name, &characters("ttyACM")) || contains(&name, &characters("ttyUSB")) || contains(
        &name,
        &characters("cu.usb"),
    )
}

/// Why no port could be chosen.
#[derive(Debug, Clone, Copy, PartialEq, Eq, Structural)]
pub enum PortError {
    NotFound,
}

impl PortError {
    /// The text shown for the error.
    pub fn message(&self) -> (text: &'static str)
        ensures
            text@
                == "no ESP32 serial devices were found; set WAYLED_ESP32_PORT to override"@,
    {
        "no ESP32 serial devices were found; set WAYLED_ESP32_PORT to override"
    }
}

/// The first port that is the controller, or else the first that is named like one.
pub open spec fn is_choice(ports: Seq<PortInfo>, at: int) -> bool {
    &&& 0 <= at < ports.len()
    &&& if exists|i: int| 0 <= i < ports.len() && (#[trigger] ports[i]).is_esp32() {
        ports[at].is_esp32() && forall|i: int| 0 <= i < at ==> !(#[trigger] ports[i]).is_esp32()
    } else {
        ports[at].is_likely() && forall|i: int| 0 <= i < at ==> !(#[trigger] ports[i]).is_likely()
    }
}

/// Whether any port will do.
pub open spec fn has_choice(ports: Seq<PortInfo>) -> bool {
    exists|i: int|
        0 <= i < ports.len() && ((#[trigger] ports[i]).is_esp32() || ports[i].is_likely())
}

/// Chooses the controller's port: the one that was named, or else one of those that
/// are there.
pub fn resolve_port(named: Option<String>, ports: &Vec<PortInfo>) -> (result: Result<
    String,
    PortError,
>)
    ensures
        match named {
            Some(name) => result == Ok::<String, PortError>(name),
            None => {
                &&& has_choice(ports@) == (result is Ok)
                &&& result matches Ok(name) ==> exists|at: int|
                    is_choice(ports@, at) && name == (#[trigger] ports@[at]).port_name
                &&& result is Err ==> result == Err::<String, PortError>(PortError::NotFound)
            },
        },
{
    if let Some(name) = named {
        return Ok(name);
    }
    let mut i: usize = 0;
    while i < ports.len()
        invariant
            named is None,
            i <= ports@.len(),
            forall|j: int| 0 <= j < i ==> !(#[trigger] ports@[j]).is_esp32(),
        decreases ports.len() - i,
    {
        if let Some(usb) = &ports[i].usb {
            if is_esp32_usb(usb) {
                assert(ports@[i as int].is_esp32());
                assert(is_choice(ports@, i as int));
                return Ok(ports[i].port_name.clone());
            }
        }
        i += 1;
    }
    let mut i: usize = 0;
    while i < ports.len()
        invariant
            named is None,
            i <= ports@.len(),
            forall|j: int| 0 <= j < ports@.len() ==> !(#[trigger] ports@[j]).is_esp32(),
            forall|j: int| 0 <= j < i ==> !(#[trigger] ports@[j]).is_likely(),
        decreases ports.len() - i,
    {
        if is_likely_port(&ports[i]) {
            assert(ports@[i as int].is_likely());
            assert(is_choice(ports@, i as int));
            return Ok(ports[i].port_name.clone());
        }
        i += 1;
    }
    Err(PortError::NotFound)
}

/// What reading the controller's feedback met.
#[derive(Debug)]
pub enum FeedbackRead {
    /// These bytes came; none at all when the port was closed.
    Bytes(Vec<u8>),
    Interrupted,
    Failed,
    Cancelled,
}

/// What the listener does next.
#[derive(Debug, Clone, Copy, PartialEq, Eq, Structural)]
pub enum FeedbackStep {
    /// Look for a report in the backlog.
    Parse,
    /// Read more.
    Read,
    /// Tell that a frame is complete, then look for another report.
    Done,
    Stop,
}

/// The bytes from the controller that no report was found in yet.
#[derive(Debug)]
pub struct FeedbackListener {
    backlog: Vec<u8>,
}

/// The backlog kept when no report is found in it: all of it, or the last part of one
/// that has grown too long for reports of `len` bytes.
pub open spec fn kept(backlog: Seq<u8>, len: nat) -> Seq<u8> {
    if backlog.len() > 4 * len {
        backlog.skip(backlog.len() - 2 * len)
    } else {
        backlog
    }
}

/// The backlog after what reading met, and what the listener does next.
pub open spec fn feedback_read(backlog: Seq<u8>, read: FeedbackRead) -> (Seq<u8>, FeedbackStep) {
    match read {
        FeedbackRead::Bytes(bytes) => if bytes@.len() == 0 {
            (Seq::empty(), FeedbackStep::Stop)
        } else {
            (backlog + bytes@, FeedbackStep::Parse)
        },
        FeedbackRead::Interrupted => (backlog, FeedbackStep::Read),
        _ => (backlog, FeedbackStep::Stop),
    }
}

/// The backlog after a report was looked for, and what the listener does next.
pub open spec fn feedback_parsed(backlog: Seq<u8>, consumed: Option<usize>, len: nat) -> (
    Seq<u8>,
    FeedbackStep,
) {
    match consumed {
        Some(n) => (backlog.skip(n as int), FeedbackStep::Done),
        None => (kept(backlog, len), FeedbackStep::Read),
    }
}

impl View for FeedbackListener {
    type V = Seq<u8>;

    closed spec fn view(&self) -> Seq<u8> {
        self.backlog@
    }
}

impl FeedbackListener {
    pub fn new() -> (listener: Self)
        ensures
            listener@ == Seq::<u8>::empty(),
    {
        FeedbackListener { backlog: Vec::new() }
    }

    /// The bytes to look for a report in.
    pub fn pending(&self) -> (bytes: &[u8])
        ensures
            bytes@ == self@,
    {
        self.backlog.as_slice()
    }

    /// Takes in what reading met.
    pub fn on_read(&mut self, read: FeedbackRead) -> (step: FeedbackStep)
        ensures
            (final(self)@, step) == feedback_read(old(self)@, read),
            !(read is Bytes) ==> *final(self) == *old(self),
    {
        match read {
            FeedbackRead::Bytes(bytes) => {
                if bytes.len() == 0 {
                    self.backlog.clear();
                    FeedbackStep::Stop
                } else {
                    self.backlog.extend_from_slice(bytes.as_slice());
                    assert(self.backlog@ =~= old(self).backlog@ + bytes@);
                    FeedbackStep::Parse
                }
            },
            FeedbackRead::Interrupted => FeedbackStep::Read,
            _ => FeedbackStep::Stop,
        }
    }

    /// Takes in how many bytes of the backlog a report took, if there was one, for
    /// reports of `feedback_len` bytes.
    pub fn on_parsed(&mut self, consumed: Option<usize>, feedback_len: usize) -> (step: FeedbackStep)
        requires
            consumed matches Some(n) ==> n <= old(self)@.len(),
            feedback_len * 4 <= usize::MAX,
        ensures
            (final(self)@, step) == feedback_parsed(old(self)@, consumed, feedback_len as nat),
    {
        match consumed {
            Some(n) => {
                self.backlog = self.backlog.split_off(n);
                assert(self@ =~= old(self)@.skip(n as int));
                FeedbackStep::Done
            },
            None => {
                let len: usize = self.backlog.len();
                if len > feedback_len * 4 {
                    self.backlog = self.backlog.split_off(len - feedback_len * 2);
                    assert(self@ =~= kept(old(self)@, feedback_len as nat));
                }
                FeedbackStep::Read
            },
        }
    }

    /// Goes on after a frame was reported complete, unless nobody listens.
    pub fn on_reported(&self, taken: bool) -> (step: FeedbackStep)
        ensures
            step == (if taken {
                FeedbackStep::Parse
            } else {
                FeedbackStep::Stop
            }),
    {
        if taken {
            FeedbackStep::Parse
        } else {
            FeedbackStep::Stop
        }
    }
}

/// The backlog stays bounded: what is kept without a report is at most four reports
/// long, and a report that has just begun is never cut.
pub proof fn backlog_stays_bounded(backlog: Seq<u8>, len: nat)
    ensures
        kept(backlog, len).len() <= 4 * len,
        backlog.len() >= 2 * len ==> kept(backlog, len).len() >= 2 * len,
        forall|i: int|
            0 <= i < kept(backlog, len).len() ==> #[trigger] kept(backlog, len)[i] == backlog[i
                + backlog.len() - kept(backlog, len).len()],
{
}

/// Which port is chosen is settled: where one belongs to the controller it is the first such
/// port, though others are named like one and come before it; otherwise the first that is
/// named so. There is one whenever there is any such port.
pub proof fn controllers_port_comes_first(ports: Seq<PortInfo>, at: int, other: int)
    requires
        is_choice(ports, at),
        0 <= other < ports.len(),
    ensures
        ports[other].is_esp32() ==> ports[at].is_esp32() && at <= other,
        !ports[at].is_esp32() ==> ports[at].is_likely(),
        !ports[at].is_esp32() && ports[other].is_likely() ==> at <= other,
        is_choice(ports, other) ==> other == at,
        has_choice(ports),
{
    if is_choice(ports, other) && other != at {
        if at < other {
            assert(!ports[at].is_esp32() || !ports[at].is_likely());
        } else {
            assert(!ports[other].is_esp32() || !ports[other].is_likely());
        }
    }
}

/// The controller's vendors are known by their numbers. Any other device is taken for it
/// only if its product is named so, in capitals or not.
pub proof fn controller_is_known_by_vendor_or_name(
    usb: UsbPort,
    name: String,
    before: Seq<char>,
    esp: Seq<char>,
    after: Seq<char>,
)
    ensures
        usb.vid == 0x303A || usb.vid == 0x10C4 ==> usb.is_esp32(),
        usb.vid != 0x303A && usb.vid != 0x10C4 && usb.product is None ==> !usb.is_esp32(),
        usb.product == Some(name) && name@ == before + esp + after && esp.len() == 3 && (esp[0]
            == 'e' || esp[0] == 'E') && (esp[1] == 's' || esp[1] == 'S') && (esp[2] == 'p' || esp[2]
            == 'P') ==> usb.is_esp32(),
{
    reveal_strlit("ESP");
    if usb.product == Some(name) && name@ == before + esp + after && esp.len() == 3 && (esp[0]
        == 'e' || esp[0] == 'E') && (esp[1] == 's' || esp[1] == 'S') && (esp[2] == 'p' || esp[2]
        == 'P') {
        let at = before.len() as int;
        let window = uppered(name@).subrange(at, at + 3);
        assert(window[0] == upper(esp[0]) && window[1] == upper(esp[1]) && window[2] == upper(
            esp[2],
        ));
        assert(window =~= "ESP"@);
        assert(occurs_at(uppered(name@), "ESP"@, at));
    }
}

/// Bytes from the controller are looked at behind those that wait already. A closed port, a
/// failure and a cancellation end the listener; an interruption does not.
pub proof fn feedback_is_collected(backlog: Seq<u8>, bytes: Vec<u8>)
    ensures
        bytes@.len() > 0 ==> feedback_read(backlog, FeedbackRead::Bytes(bytes)) == (
            backlog + bytes@,
            FeedbackStep::Parse,
        ),
        bytes@.len() == 0 ==> feedback_read(backlog, FeedbackRead::Bytes(bytes)).1
            == FeedbackStep::Stop,
        feedback_read(backlog, FeedbackRead::Interrupted) == (backlog, FeedbackStep::Read),
        feedback_read(backlog, FeedbackRead::Failed).1 == FeedbackStep::Stop,
        feedback_read(backlog, FeedbackRead::Cancelled).1 == FeedbackStep::Stop,
{
}

/// A report is told of and leaves what follows it. Without one more is read, and what is
/// kept meanwhile is the newest part: never less than two reports of what there is, and
/// never more than four.
pub proof fn backlog_keeps_newest_bytes(backlog: Seq<u8>, n: usize, len: nat, i: int)
    requires
        n <= backlog.len(),
        0 <= i < kept(backlog, len).len(),
    ensures
        feedback_parsed(backlog, Some(n), len).1 == FeedbackStep::Done,
        backlog.take(n as int) + feedback_parsed(backlog, Some(n), len).0 == backlog,
        feedback_parsed(backlog, None, len).1 == FeedbackStep::Read,
        ({
            let rest = feedback_parsed(backlog, None, len).0;
            &&& rest.len() <= 4 * len
            &&& rest.len() >= 2 * len || rest == backlog
            &&& rest[rest.len() - 1 - i] == backlog[backlog.len() - 1 - i]
        }),
{
    assert(backlog.take(n as int) + backlog.skip(n as int) =~= backlog);
}

} // verus!
