//! Forwards the frames of a blocking serial reader.

use vstd::prelude::*;

use crate::espled::deframer;
use crate::espled::deframer::{Deframer, Extracted};
use crate::espled::receiver;
use crate::espled::receiver::pixels_from_payload;
use crate::ledcomm::{StateFrame, FRAME_LEN, STATE_BYTES};

verus! {

/// The reader's buffer.
pub struct StdinForwarder {
    deframer: Deframer,
}

/// The frames show the payloads, one each, in order.
pub open spec fn frames_show(frames: Seq<StateFrame>, payloads: Seq<Seq<u8>>) -> bool {
    &&& frames.len() == payloads.len()
    &&& forall|i: int| 0 <= i < frames.len() ==> receiver::shown(#[trigger] frames[i], payloads[i])
}

/// The bytes that wait after a read, and the payloads that it completed.
pub open spec fn after_read(pending: Seq<u8>, read: i32, data: Seq<u8>) -> (
    Seq<u8>,
    Seq<Seq<u8>>,
) {
    if read < 0 {
        (Seq::empty(), Seq::empty())
    } else if read == 0 {
        (pending, Seq::empty())
    } else {
        (deframer::residue(pending + data), deframer::payloads(pending + data))
    }
}

/// The bytes that wait once there is room for more, and for how many.
pub open spec fn with_space(pending: Seq<u8>) -> (Seq<u8>, int) {
    if pending.len() < FRAME_LEN {
        (pending, FRAME_LEN - pending.len())
    } else {
        (Seq::empty(), FRAME_LEN as int)
    }
}

impl View for StdinForwarder {
    type V = Seq<u8>;

    closed spec fn view(&self) -> Seq<u8> {
        self.deframer@
    }
}

impl StdinForwarder {
    pub fn new() -> (forwarder: Self)
        ensures
            forwarder@ == Seq::<u8>::empty(),
    {
        StdinForwarder { deframer: Deframer::new() }
    }

    /// How many bytes may be read next. A buffer that is full without a frame is
    /// dropped first.
    pub fn space(&mut self) -> (space: usize)
        requires
            old(self)@.len() <= FRAME_LEN,
        ensures
            (final(self)@, space as int) == with_space(old(self)@),
            old(self)@.len() < FRAME_LEN ==> *final(self) == *old(self),
    {
        let have: usize = self.deframer.have();
        if have < FRAME_LEN {
            FRAME_LEN - have
        } else {
            self.deframer.reset();
            FRAME_LEN
        }
    }

    /// Takes in the outcome of a read, negative for an error and otherwise the
    /// number of bytes in `data`, and returns the frames that are complete.
    pub fn on_read(&mut self, read: i32, data: &[u8]) -> (frames: Vec<StateFrame>)
        requires
            read >= 0 ==> data@.len() == read,
        ensures
            final(self)@ == after_read(old(self)@, read, data@).0,
            frames_show(frames@, after_read(old(self)@, read, data@).1),
            read == 0 ==> *final(self) == *old(self),
    {
        let mut frames: Vec<StateFrame> = Vec::new();
        if read < 0 {
            self.deframer.reset();
            return frames;
        }
        if read == 0 {
            return frames;
        }
        self.deframer.extend(data);
        let ghost all = old(self)@ + data@;
        loop
            invariant_except_break
                deframer::residue(self.deframer@) == deframer::residue(all),
                frames@.len() + deframer::payloads(self.deframer@).len() == deframer::payloads(
                    all,
                ).len(),
                deframer::payloads(self.deframer@) == deframer::payloads(all).skip(
                    frames@.len() as int,
                ),
                forall|i: int|
                    0 <= i < frames@.len() ==> receiver::shown(
                        #[trigger] frames@[i],
                        deframer::payloads(all)[i],
                    ),
            ensures
                self.deframer@ == deframer::residue(all),
                frames_show(frames@, deframer::payloads(all)),
            decreases self.deframer@.len(),
        {
            let ghost before = self.deframer@;
            proof {
                deframer::extraction_bounds(before);
            }
            match self.deframer.next() {
                Extracted::Complete(payload) => {
                    let ghost left = deframer::payloads(before);
                    assert(left[0] == payload@);
                    assert(deframer::payloads(self.deframer@) =~= left.skip(1));
                    assert(left.skip(1) =~= deframer::payloads(all).skip(frames@.len() + 1int));
                    frames.push(pixels_from_payload(payload.as_slice()));
                },
                _ => {
                    break;
                },
            }
        }
        frames
    }
}

/// What [`StdinForwarder::on_read`] hands on for reads that succeed, read by read, behind the
/// bytes that wait already.
pub open spec fn forwards(
    pending: Seq<u8>,
    reads: Seq<Seq<u8>>,
    frames: Seq<Seq<StateFrame>>,
) -> bool
    decreases reads.len(),
{
    &&& frames.len() == reads.len()
    &&& reads.len() > 0 ==> if reads[0].len() == 0 {
        &&& frames[0].len() == 0
        &&& forwards(pending, reads.drop_first(), frames.drop_first())
    } else {
        let bytes = pending + reads[0];
        &&& frames_show(frames[0], deframer::payloads(bytes))
        &&& forwards(deframer::residue(bytes), reads.drop_first(), frames.drop_first())
    }
}

proof fn forwarded_frames_show_payloads(
    pending: Seq<u8>,
    reads: Seq<Seq<u8>>,
    frames: Seq<Seq<StateFrame>>,
)
    requires
        forwards(pending, reads, frames),
    ensures
        frames_show(frames.flatten(), deframer::read_payloads(pending, reads)),
    decreases reads.len(),
{
    if reads.len() > 0 {
        let (rest, later) = (reads.drop_first(), frames.drop_first());
        if reads[0].len() == 0 {
            forwarded_frames_show_payloads(pending, rest, later);
            assert(frames.flatten() =~= later.flatten());
        } else {
            let bytes = pending + reads[0];
            forwarded_frames_show_payloads(deframer::residue(bytes), rest, later);
            let (first, all) = (frames[0], frames.flatten());
            let given = deframer::read_payloads(pending, reads);
            assert(all =~= first + later.flatten());
            assert forall|i: int| 0 <= i < all.len() implies receiver::shown(
                #[trigger] all[i],
                given[i],
            ) by {
                if i < first.len() {
                    assert(receiver::shown(first[i], deframer::payloads(bytes)[i]));
                } else {
                    assert(receiver::shown(
                        later.flatten()[i - first.len()],
                        deframer::read_payloads(deframer::residue(bytes), rest)[i - first.len()],
                    ));
                }
            }
        }
    }
}

/// However the serial port cuts a stream of packets into reads, one frame is handed on for
/// each complete packet, in order: the payload from the first LED on, the rest dark. Bytes
/// without the magic may stand in front of a packet, and a packet without its end is not
/// handed on.
pub proof fn every_packet_is_forwarded(
    parts: Seq<(Seq<u8>, Seq<u8>)>,
    garbage: Seq<u8>,
    last: Seq<u8>,
    len: int,
    reads: Seq<Seq<u8>>,
    frames: Seq<Seq<StateFrame>>,
)
    requires
        deframer::parts_fit(parts),
        deframer::has_no_magic(garbage),
        last.len() <= STATE_BYTES,
        0 <= len < deframer::packet(last).len(),
        reads.flatten() == deframer::packet_stream(parts) + (garbage + deframer::packet(last).take(
            len,
        )),
        forwards(Seq::empty(), reads, frames),
    ensures
        frames_show(frames.flatten(), parts.map_values(|part: (Seq<u8>, Seq<u8>)| part.1)),
{
    deframer::complete_packets_come_out(parts, garbage, last, len, reads);
    forwarded_frames_show_payloads(Seq::empty(), reads, frames);
}

/// A read that failed drops what waited, one without bytes changes nothing, and neither
/// completes a frame. A packet that is read whole comes out, with nothing left of it.
pub proof fn whole_packet_comes_out_at_once(
    pending: Seq<u8>,
    payload: Seq<u8>,
    read: i32,
    failed: i32,
)
    requires
        failed < 0,
        payload.len() <= STATE_BYTES,
        read > 0,
    ensures
        after_read(pending, failed, Seq::empty()).0.len() == 0,
        after_read(pending, failed, Seq::empty()).1.len() == 0,
        after_read(pending, 0, Seq::empty()).0 == pending,
        after_read(pending, 0, Seq::empty()).1.len() == 0,
        after_read(Seq::empty(), read, deframer::packet(payload)).1 == seq![payload],
        after_read(Seq::empty(), read, deframer::packet(payload)).0.len() == 0,
{
    let none = Seq::<u8>::empty();
    deframer::packet_is_delivered(payload, none);
    assert(none + deframer::packet(payload) =~= deframer::packet(payload) + none);
    assert(deframer::resync(none) == none);
    assert(seq![payload] + deframer::payloads(none) =~= seq![payload]);
}

/// There is always space for another byte and never for more than one frame.
pub proof fn forwarder_always_has_space(pending: Seq<u8>)
    requires
        pending.len() <= FRAME_LEN,
    ensures
        0 < with_space(pending).1 <= 906,
        with_space(pending).0.len() + with_space(pending).1 == 906,
        pending.len() < 906 ==> with_space(pending).0 == pending,
{
}

} // verus!
