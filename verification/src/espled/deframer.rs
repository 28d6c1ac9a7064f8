//! Cuts frames out of a byte stream and finds its way back to a frame start
//! after garbage.

use vstd::prelude::*;

use crate::ledcomm;
use crate::ledcomm::{FRAME_LEN, HEADER_LEN, MAGIC};

verus! {

/// Whether the bytes open with the frame magic.
pub open spec fn at_frame(bytes: Seq<u8>) -> bool {
    bytes.len() >= 4 && bytes.take(4) == MAGIC@
}

/// The stream from its first possible frame start on: leading bytes are dropped
/// as long as a whole header is there and does not open with the magic.
pub open spec fn resync(bytes: Seq<u8>) -> Seq<u8>
    decreases bytes.len(),
{
    if bytes.len() < HEADER_LEN || at_frame(bytes) {
        bytes
    } else {
        resync(bytes.skip(1))
    }
}

/// The payload length that the header at the front declares.
pub open spec fn declared_len(bytes: Seq<u8>) -> nat {
    (bytes[4] + 256 * bytes[5]) as nat
}

/// What lies at the front of the stream, and the stream behind it.
pub enum Extraction {
    /// No whole frame is there yet.
    Pending,
    /// The header declares a frame of this many bytes, more than any frame has.
    Oversized { size: nat },
    /// A whole frame with this payload.
    Complete { payload: Seq<u8> },
}

pub open spec fn extraction(bytes: Seq<u8>) -> (Extraction, Seq<u8>) {
    let stream = resync(bytes);
    let size = HEADER_LEN + declared_len(stream);
    if stream.len() < HEADER_LEN {
        (Extraction::Pending, stream)
    } else if size > FRAME_LEN {
        (Extraction::Oversized { size: size as nat }, Seq::empty())
    } else if stream.len() < size {
        (Extraction::Pending, stream)
    } else {
        (Extraction::Complete { payload: stream.subrange(6, size) }, stream.skip(size))
    }
}

/// The payloads that the stream yields before it has to wait, in order.
pub open spec fn payloads(bytes: Seq<u8>) -> Seq<Seq<u8>>
    decreases bytes.len(),
    via extraction_shrinks
{
    match extraction(bytes) {
        (Extraction::Complete { payload }, rest) => seq![payload] + payloads(rest),
        _ => Seq::empty(),
    }
}

/// What is left of the stream once nothing more can be taken from it.
pub open spec fn residue(bytes: Seq<u8>) -> Seq<u8>
    decreases bytes.len(),
    via residue_shrinks
{
    match extraction(bytes) {
        (Extraction::Complete { payload }, rest) => residue(rest),
        (_, rest) => rest,
    }
}

/// Whether taking frames from the stream stops at one that is too large.
pub open spec fn meets_oversized(bytes: Seq<u8>) -> bool
    decreases bytes.len(),
    via oversized_shrinks
{
    match extraction(bytes) {
        (Extraction::Complete { payload }, rest) => meets_oversized(rest),
        (Extraction::Oversized { size }, rest) => true,
        (Extraction::Pending, rest) => false,
    }
}

proof fn resync_is_suffix(bytes: Seq<u8>)
    ensures
        resync(bytes).len() <= bytes.len(),
        resync(bytes) == bytes.skip(bytes.len() - resync(bytes).len()),
        resync(bytes).len() < HEADER_LEN || at_frame(resync(bytes)),
    decreases bytes.len(),
{
    if bytes.len() < HEADER_LEN || at_frame(bytes) {
        assert(bytes.skip(0) =~= bytes);
    } else {
        let tail = bytes.skip(1);
        resync_is_suffix(tail);
        assert(tail.skip(tail.len() - resync(tail).len()) =~= bytes.skip(
            bytes.len() - resync(bytes).len(),
        ));
    }
}

#[via_fn]
proof fn extraction_shrinks(bytes: Seq<u8>) {
    resync_is_suffix(bytes);
}

#[via_fn]
proof fn residue_shrinks(bytes: Seq<u8>) {
    resync_is_suffix(bytes);
}

#[via_fn]
proof fn oversized_shrinks(bytes: Seq<u8>) {
    resync_is_suffix(bytes);
}

/// A payload taken from the stream fits a frame, and the stream gets shorter.
pub proof fn extraction_bounds(bytes: Seq<u8>)
    ensures
        extraction(bytes).1.len() <= bytes.len(),
        extraction(bytes).0 matches Extraction::Complete { payload } ==> payload.len()
            <= ledcomm::STATE_BYTES && extraction(bytes).1.len() < bytes.len(),
{
    resync_is_suffix(bytes);
}

/// Bytes behind the stream do not change how its front is brought back to a
/// frame start, as long as the front has a whole header left.
proof fn resync_of_longer(bytes: Seq<u8>, more: Seq<u8>)
    ensures
        resync(bytes).len() >= HEADER_LEN ==> resync(bytes + more) == resync(bytes) + more,
        resync(bytes + more) == resync(resync(bytes) + more),
    decreases bytes.len(),
{
    let all = bytes + more;
    if bytes.len() < HEADER_LEN {
    } else if at_frame(bytes) {
        assert(all.take(4) =~= bytes.take(4));
    } else {
        assert(all.take(4) =~= bytes.take(4));
        assert(all.skip(1) =~= bytes.skip(1) + more);
        resync_of_longer(bytes.skip(1), more);
    }
}

/// How a stream is cut into reads does not matter: reading `bytes` and then
/// `more` yields the frames of both read at once, unless a frame that is too
/// large makes the first read drop its bytes.
pub proof fn reads_can_be_split(bytes: Seq<u8>, more: Seq<u8>)
    requires
        !meets_oversized(bytes),
    ensures
        payloads(bytes + more) == payloads(bytes) + payloads(residue(bytes) + more),
        residue(bytes + more) == residue(residue(bytes) + more),
        meets_oversized(bytes + more) == meets_oversized(residue(bytes) + more),
    decreases bytes.len(),
{
    resync_is_suffix(bytes);
    resync_of_longer(bytes, more);
    let stream = resync(bytes);
    let longer = resync(bytes + more);
    match extraction(bytes) {
        (Extraction::Complete { payload }, rest) => {
            let size = HEADER_LEN + declared_len(stream);
            assert(longer.subrange(6, size) =~= payload);
            assert(longer.skip(size) =~= rest + more);
            reads_can_be_split(rest, more);
            assert(payloads(bytes + more) =~= payloads(bytes) + payloads(residue(bytes) + more));
        },
        (_, rest) => {
            assert(extraction(bytes + more) == extraction(rest + more));
            assert(payloads(bytes + more) =~= payloads(bytes) + payloads(residue(bytes) + more));
        },
    }
}

/// What is left over never fills the buffer of one frame, so there is always
/// room for the next read.
pub proof fn residue_leaves_room(bytes: Seq<u8>)
    ensures
        residue(bytes).len() < FRAME_LEN,
    decreases bytes.len(),
{
    resync_is_suffix(bytes);
    match extraction(bytes) {
        (Extraction::Complete { payload }, rest) => residue_leaves_room(rest),
        _ => {},
    }
}

/// A frame's packet at the front of the stream is delivered whole, whatever
/// follows it.
pub proof fn packet_is_delivered(payload: Seq<u8>, more: Seq<u8>)
    requires
        payload.len() <= ledcomm::STATE_BYTES,
    ensures
        extraction(MAGIC@ + ledcomm::le16(payload.len() as u16) + payload + more) == (
            Extraction::Complete { payload },
            more,
        ),
        payloads(MAGIC@ + ledcomm::le16(payload.len() as u16) + payload + more) == seq![payload]
            + payloads(more),
        residue(MAGIC@ + ledcomm::le16(payload.len() as u16) + payload + more) == residue(more),
{
    let stream = MAGIC@ + ledcomm::le16(payload.len() as u16) + payload + more;
    assert(stream.take(4) =~= MAGIC@);
    assert(declared_len(stream) == payload.len());
    assert(stream.subrange(6, 6int + payload.len()) =~= payload);
    assert(stream.skip(6int + payload.len()) =~= more);
}

/// A payload's packet.
pub open spec fn packet(payload: Seq<u8>) -> Seq<u8> {
    MAGIC@ + ledcomm::le16(payload.len() as u16) + payload
}

/// Whether the magic occurs nowhere in the bytes.
pub open spec fn has_no_magic(bytes: Seq<u8>) -> bool {
    forall|i: int|
        0 <= i && i + 4 <= bytes.len() ==> #[trigger] bytes.subrange(i, i + 4) != MAGIC@
}

/// A magic behind bytes without one cannot begin among those: its first byte occurs in
/// it only once.
proof fn no_frame_in_garbage(garbage: Seq<u8>, stream: Seq<u8>)
    requires
        has_no_magic(garbage),
        garbage.len() > 0,
        stream.len() > 0 ==> stream[0] == MAGIC@[0],
    ensures
        !at_frame(garbage + stream),
        has_no_magic(garbage.skip(1)),
        (garbage + stream).skip(1) == garbage.skip(1) + stream,
{
    let all = garbage + stream;
    if at_frame(all) {
        if garbage.len() >= 4 {
            let i: int = 0;
            assert(garbage.subrange(i, i + 4) =~= all.take(4));
            assert(garbage.subrange(i, i + 4) != MAGIC@);
        } else {
            let at = garbage.len() as int;
            assert(all.take(4)[at] == stream[0]);
            assert(MAGIC@[at] != MAGIC@[0]) by {
                assert(MAGIC@ =~= seq![76u8, 69u8, 68u8, 83u8]);
            }
        }
    }
    assert forall|i: int|
        0 <= i && i + 4 <= garbage.skip(1).len() implies #[trigger] garbage.skip(1).subrange(
        i,
        i + 4,
    ) != MAGIC@ by {
        assert(garbage.skip(1).subrange(i, i + 4) =~= garbage.subrange(i + 1, i + 1 + 4));
    }
    assert(all.skip(1) =~= garbage.skip(1) + stream);
}

proof fn garbage_is_skipped(garbage: Seq<u8>, stream: Seq<u8>)
    requires
        has_no_magic(garbage),
        stream.len() > 0 ==> stream[0] == MAGIC@[0],
    ensures
        stream.len() >= HEADER_LEN && at_frame(stream) ==> resync(garbage + stream) == stream,
        stream.len() < HEADER_LEN ==> resync(garbage + stream).len() < HEADER_LEN,
    decreases garbage.len(),
{
    if garbage.len() == 0 {
        assert(garbage + stream =~= stream);
    } else {
        no_frame_in_garbage(garbage, stream);
        garbage_is_skipped(garbage.skip(1), stream);
    }
}

/// A packet is delivered whole whatever bytes without the magic stand in front of it, and
/// whatever follows it.
pub proof fn packet_is_found_behind_garbage(garbage: Seq<u8>, payload: Seq<u8>, more: Seq<u8>)
    requires
        has_no_magic(garbage),
        payload.len() <= ledcomm::STATE_BYTES,
    ensures
        payloads(garbage + packet(payload) + more) == seq![payload] + payloads(more),
        residue(garbage + packet(payload) + more) == residue(more),
        meets_oversized(garbage + packet(payload) + more) == meets_oversized(more),
{
    let stream = packet(payload) + more;
    assert(garbage + packet(payload) + more =~= garbage + stream);
    assert(stream.take(4) =~= MAGIC@);
    assert(stream[0] == MAGIC@[0]);
    garbage_is_skipped(garbage, stream);
    packet_is_delivered(payload, more);
    assert(resync(stream) == stream);
    assert(extraction(garbage + stream) == extraction(stream));
}

/// A packet whose end has not come yields nothing, whatever bytes without the magic stand
/// in front of it.
pub proof fn incomplete_packet_waits(garbage: Seq<u8>, payload: Seq<u8>, len: int)
    requires
        has_no_magic(garbage),
        payload.len() <= ledcomm::STATE_BYTES,
        0 <= len < packet(payload).len(),
    ensures
        payloads(garbage + packet(payload).take(len)) == Seq::<Seq<u8>>::empty(),
        !meets_oversized(garbage + packet(payload).take(len)),
{
    let part = packet(payload).take(len);
    if part.len() > 0 {
        assert(part[0] == MAGIC@[0]);
    }
    if part.len() >= HEADER_LEN {
        assert(part.take(4) =~= MAGIC@);
        assert(declared_len(part) == payload.len());
    }
    garbage_is_skipped(garbage, part);
}

/// A stream of packets, each behind some bytes.
pub open spec fn packet_stream(parts: Seq<(Seq<u8>, Seq<u8>)>) -> Seq<u8>
    decreases parts.len(),
{
    if parts.len() == 0 {
        Seq::empty()
    } else {
        parts[0].0 + packet(parts[0].1) + packet_stream(parts.drop_first())
    }
}

/// Whether the bytes in front of the packets hold no magic and the payloads fit a frame.
pub open spec fn parts_fit(parts: Seq<(Seq<u8>, Seq<u8>)>) -> bool {
    forall|i: int|
        0 <= i < parts.len() ==> has_no_magic((#[trigger] parts[i]).0) && parts[i].1.len()
            <= ledcomm::STATE_BYTES
}

/// A stream of packets with bytes without the magic in front of any of them yields exactly
/// their payloads, in order, whatever follows the last one.
pub proof fn stream_yields_its_payloads(parts: Seq<(Seq<u8>, Seq<u8>)>, more: Seq<u8>)
    requires
        parts_fit(parts),
    ensures
        payloads(packet_stream(parts) + more) == parts.map_values(
            |part: (Seq<u8>, Seq<u8>)| part.1,
        ) + payloads(more),
        meets_oversized(packet_stream(parts) + more) == meets_oversized(more),
    decreases parts.len(),
{
    let of = |parts: Seq<(Seq<u8>, Seq<u8>)>|
        parts.map_values(|part: (Seq<u8>, Seq<u8>)| part.1);
    if parts.len() == 0 {
        assert(packet_stream(parts) + more =~= more);
        assert(of(parts) + payloads(more) =~= payloads(more));
    } else {
        let rest = parts.drop_first();
        let tail = packet_stream(rest) + more;
        assert(packet_stream(parts) + more =~= parts[0].0 + packet(parts[0].1) + tail);
        assert forall|i: int| 0 <= i < rest.len() implies has_no_magic((#[trigger] rest[i]).0)
            && rest[i].1.len() <= ledcomm::STATE_BYTES by {
            assert(rest[i] == parts[i + 1]);
        }
        packet_is_found_behind_garbage(parts[0].0, parts[0].1, tail);
        stream_yields_its_payloads(rest, more);
        assert(of(parts) =~= seq![parts[0].1] + of(rest));
        assert(of(parts) + payloads(more) =~= seq![parts[0].1] + (of(rest) + payloads(more)));
    }
}

/// What is left over yields nothing by itself.
pub proof fn residue_is_exhausted(bytes: Seq<u8>)
    ensures
        payloads(residue(bytes)) == Seq::<Seq<u8>>::empty(),
        residue(residue(bytes)) == residue(bytes),
    decreases bytes.len(),
{
    resync_is_suffix(bytes);
    match extraction(bytes) {
        (Extraction::Complete { payload }, rest) => residue_is_exhausted(rest),
        _ => {},
    }
}

/// A stream that meets a frame that is too large still does so when more follows.
proof fn oversized_stays(bytes: Seq<u8>, more: Seq<u8>)
    requires
        meets_oversized(bytes),
    ensures
        meets_oversized(bytes + more),
    decreases bytes.len(),
{
    resync_is_suffix(bytes);
    resync_of_longer(bytes, more);
    let stream = resync(bytes);
    match extraction(bytes) {
        (Extraction::Complete { payload }, rest) => {
            let size = HEADER_LEN + declared_len(stream);
            assert(resync(bytes + more).skip(size) =~= rest + more);
            oversized_stays(rest, more);
        },
        _ => {},
    }
}

/// The payloads that come out when the bytes come in read by read, behind those that wait
/// already. A read of nothing does nothing.
pub open spec fn read_payloads(pending: Seq<u8>, reads: Seq<Seq<u8>>) -> Seq<Seq<u8>>
    decreases reads.len(),
{
    if reads.len() == 0 {
        Seq::empty()
    } else if reads[0].len() == 0 {
        read_payloads(pending, reads.drop_first())
    } else {
        payloads(pending + reads[0]) + read_payloads(
            residue(pending + reads[0]),
            reads.drop_first(),
        )
    }
}

/// However a stream is cut into reads, the same payloads come out, unless it meets a frame
/// that is too large.
pub proof fn cutting_does_not_matter(pending: Seq<u8>, reads: Seq<Seq<u8>>)
    requires
        payloads(pending) == Seq::<Seq<u8>>::empty(),
        !meets_oversized(pending + reads.flatten()),
    ensures
        read_payloads(pending, reads) == payloads(pending + reads.flatten()),
    decreases reads.len(),
{
    if reads.len() == 0 {
        assert(pending + reads.flatten() =~= pending);
    } else {
        let rest = reads.drop_first();
        let more = rest.flatten();
        let bytes = pending + reads[0];
        assert(pending + reads.flatten() =~= bytes + more);
        if reads[0].len() == 0 {
            assert(bytes + more =~= pending + more);
            cutting_does_not_matter(pending, rest);
        } else {
            if meets_oversized(bytes) {
                oversized_stays(bytes, more);
            }
            reads_can_be_split(bytes, more);
            residue_is_exhausted(bytes);
            cutting_does_not_matter(residue(bytes), rest);
        }
    }
}

/// However a stream of packets is cut into reads, with bytes without the magic in front of
/// any packet and an incomplete one at the end, exactly the payloads of the complete packets
/// come out, in order.
pub proof fn complete_packets_come_out(
    parts: Seq<(Seq<u8>, Seq<u8>)>,
    garbage: Seq<u8>,
    last: Seq<u8>,
    len: int,
    reads: Seq<Seq<u8>>,
)
    requires
        parts_fit(parts),
        has_no_magic(garbage),
        last.len() <= ledcomm::STATE_BYTES,
        0 <= len < packet(last).len(),
        reads.flatten() == packet_stream(parts) + (garbage + packet(last).take(len)),
    ensures
        read_payloads(Seq::empty(), reads) == parts.map_values(
            |part: (Seq<u8>, Seq<u8>)| part.1,
        ),
{
    let more = garbage + packet(last).take(len);
    incomplete_packet_waits(garbage, last, len);
    stream_yields_its_payloads(parts, more);
    assert(Seq::<u8>::empty() + reads.flatten() =~= packet_stream(parts) + more);
    cutting_does_not_matter(Seq::empty(), reads);
    let of = parts.map_values(|part: (Seq<u8>, Seq<u8>)| part.1);
    assert(of + Seq::<Seq<u8>>::empty() =~= of);
}

/// Bytes that have not been made into frames yet.
pub struct Deframer {
    pending: Vec<u8>,
}

/// What [`Deframer::next`] found.
pub enum Extracted {
    Pending,
    Oversized(usize),
    Complete(Vec<u8>),
}

impl Extracted {
    pub open spec fn is(&self, model: Extraction) -> bool {
        match (*self, model) {
            (Extracted::Pending, Extraction::Pending) => true,
            (Extracted::Oversized(n), Extraction::Oversized { size }) => n == size,
            (Extracted::Complete(bytes), Extraction::Complete { payload }) => bytes@ == payload,
            _ => false,
        }
    }
}

impl View for Deframer {
    type V = Seq<u8>;

    closed spec fn view(&self) -> Seq<u8> {
        self.pending@
    }
}

impl Deframer {
    pub fn new() -> (deframer: Self)
        ensures
            deframer@ == Seq::<u8>::empty(),
    {
        Deframer { pending: Vec::new() }
    }

    /// How many bytes are buffered.
    pub fn have(&self) -> (have: usize)
        ensures
            have == self@.len(),
    {
        self.pending.len()
    }

    /// Forgets what is buffered.
    pub fn reset(&mut self)
        ensures
            final(self)@ == Seq::<u8>::empty(),
    {
        self.pending.clear();
    }

    /// Appends what was read.
    pub fn extend(&mut self, bytes: &[u8])
        ensures
            final(self)@ == old(self)@ + bytes@,
    {
        self.pending.extend_from_slice(bytes);
        assert(self.pending@ =~= old(self).pending@ + bytes@);
    }

    /// Takes the next frame off the front, after dropping what precedes it.
    pub fn next(&mut self) -> (found: Extracted)
        ensures
            found.is(extraction(old(self)@).0),
            final(self)@ == extraction(old(self)@).1,
    {
        let ghost bytes = self.pending@;
        let mut start: usize = 0;
        assert(bytes.skip(0) =~= bytes);
        while self.pending.len() - start >= HEADER_LEN && !self.magic_at(start)
            invariant
                self.pending@ == bytes,
                start <= bytes.len(),
                resync(bytes.skip(start as int)) == resync(bytes),
            decreases bytes.len() - start,
        {
            assert(bytes.skip(start as int).skip(1) =~= bytes.skip(start + 1));
            start += 1;
        }
        assert(resync(bytes) == bytes.skip(start as int));
        let mut stream = self.pending.split_off(start);
        assert(stream@ =~= resync(bytes));
        if stream.len() < HEADER_LEN {
            self.pending = stream;
            return Extracted::Pending;
        }
        let size: usize = HEADER_LEN + (stream[4] as usize + 256 * stream[5] as usize);
        if size > FRAME_LEN {
            self.pending = Vec::new();
            return Extracted::Oversized(size);
        }
        if stream.len() < size {
            self.pending = stream;
            return Extracted::Pending;
        }
        self.pending = stream.split_off(size);
        let payload = stream.split_off(HEADER_LEN);
        assert(payload@ =~= resync(bytes).subrange(6, size as int));
        assert(self.pending@ =~= resync(bytes).skip(size as int));
        Extracted::Complete(payload)
    }

    /// The payload length that the header at the front declares.
    pub fn declared(&self) -> (len: usize)
        requires
            self@.len() >= HEADER_LEN,
        ensures
            len == declared_len(self@),
    {
        self.pending[4] as usize + 256 * self.pending[5] as usize
    }

    fn magic_at(&self, start: usize) -> (found: bool)
        requires
            start + HEADER_LEN <= self@.len(),
        ensures
            found == at_frame(self@.skip(start as int)),
    {
        assert(self.pending.len() == self@.len());
        let found = self.pending[start] == MAGIC[0] && self.pending[start + 1] == MAGIC[1]
            && self.pending[start + 2] == MAGIC[2] && self.pending[start + 3] == MAGIC[3];
        let ghost head = self.pending@.skip(start as int).take(4);
        assert(found ==> head =~= MAGIC@);
        assert(head[0] == self.pending@[start as int]);
        assert(head[1] == self.pending@[start + 1]);
        assert(head[2] == self.pending@[start + 2]);
        assert(head[3] == self.pending@[start + 3]);
        found
    }
}

/// A header that declares more than a frame holds takes everything that has come with it
/// down.
pub proof fn oversized_packet_is_dropped(rest: Seq<u8>, len: u16)
    requires
        len > 900,
    ensures
        ({
            let stream = MAGIC@ + seq![(len % 256) as u8, (len / 256) as u8] + rest;
            &&& extraction(stream) == (
                Extraction::Oversized { size: (6 + len) as nat },
                Seq::<u8>::empty(),
            )
            &&& meets_oversized(stream)
            &&& payloads(stream).len() == 0
        }),
{
    let stream = MAGIC@ + seq![(len % 256) as u8, (len / 256) as u8] + rest;
    assert(stream.take(4) =~= MAGIC@);
    assert(stream[4] == (len % 256) as u8 && stream[5] == (len / 256) as u8);
    assert(declared_len(stream) == len);
}

/// A packet is four bytes of magic, the length with its low byte first, and the payload.
pub proof fn packet_lies_in_order(payload: Seq<u8>, i: int)
    requires
        payload.len() <= ledcomm::STATE_BYTES,
        0 <= i < payload.len(),
    ensures
        packet(payload).len() == 6 + payload.len(),
        packet(payload).take(4) == MAGIC@,
        packet(payload)[4] + 256 * packet(payload)[5] == payload.len(),
        packet(payload)[6 + i] == payload[i],
{
    assert(packet(payload).take(4) =~= MAGIC@);
}

} // verus!
