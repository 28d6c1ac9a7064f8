//! Message framing: seven magic bytes, a big-endian length of three bytes and the
//! encoded message.

use vstd::prelude::*;

use tokio_util::bytes::{Buf, BufMut, BytesMut};

use crate::text::joined;

verus! {

/// The bytes `HAL1210`.
pub const MAGIC: [u8; 7] = [0x48, 0x41, 0x4c, 0x31, 0x32, 0x31, 0x30];

pub const HEADER_LEN: usize = 10;

/// The longest message that three length bytes can announce.
pub const MAX_MESSAGE_LEN: usize = 0xff_ffff;

/// A growable byte buffer of the `bytes` crate.
#[verifier::external_type_specification]
#[verifier::external_body]
pub struct ExBytesMut(BytesMut);

/// The bytes that a buffer holds.
pub uninterp spec fn buffered(buf: BytesMut) -> Seq<u8>;

/// Dereferences a `BytesMut`: the bytes that it holds.
#[verifier::external_body]
fn as_slice(buf: &BytesMut) -> (bytes: &[u8])
    ensures
        bytes@ == buffered(*buf),
{
    buf
}

/// Calls `bytes::Buf::advance`: drops bytes from the front. It panics when there
/// are fewer.
#[verifier::external_body]
fn advance(buf: &mut BytesMut, count: usize)
    requires
        count <= buffered(*old(buf)).len(),
    ensures
        buffered(*final(buf)) == buffered(*old(buf)).skip(count as int),
{
    buf.advance(count);
}

/// Calls `BytesMut::reserve`: makes room and keeps the contents. It panics when the
/// capacity would overflow.
#[verifier::external_body]
fn reserve(buf: &mut BytesMut, additional: usize)
    requires
        buffered(*old(buf)).len() + additional <= isize::MAX,
    ensures
        buffered(*final(buf)) == buffered(*old(buf)),
{
    buf.reserve(additional);
}

/// Calls `bytes::BufMut::put_slice`: appends bytes. It panics when the capacity
/// would overflow.
#[verifier::external_body]
fn put_slice(buf: &mut BytesMut, bytes: &[u8])
    requires
        buffered(*old(buf)).len() + bytes@.len() <= isize::MAX,
    ensures
        buffered(*final(buf)) == buffered(*old(buf)) + bytes@,
{
    buf.put_slice(bytes);
}

/// Why a connection's stream cannot be read or written on.
#[derive(Debug)]
pub enum Error {
    Io(String),
    InvalidMagic,
    MessageTooLarge,
    Serialize(String),
    Deserialize(String),
}

impl Error {
    /// The text shown for the error.
    pub fn message(&self) -> (text: String)
        ensures
            text@ == match self {
                Error::Io(err) => err@,
                Error::InvalidMagic => "Invalid magic bytes"@,
                Error::MessageTooLarge => "Message too large"@,
                Error::Serialize(err) => "Serialization error: "@ + err@,
                Error::Deserialize(err) => "Deserialization error: "@ + err@,
            },
    {
        match self {
            Error::Io(err) => String::from_str(err.as_str()),
            Error::InvalidMagic => String::from_str("Invalid magic bytes"),
            Error::MessageTooLarge => String::from_str("Message too large"),
            Error::Serialize(err) => joined("Serialization error: ", err.as_str()),
            Error::Deserialize(err) => joined("Deserialization error: ", err.as_str()),
        }
    }
}

/// A number as three bytes, the most significant first.
pub open spec fn be24(n: nat) -> Seq<u8> {
    seq![(n / 0x1_0000) as u8, (n / 0x100 % 0x100) as u8, (n % 0x100) as u8]
}

/// An encoded message with its header.
pub open spec fn framed(data: Seq<u8>) -> Seq<u8> {
    MAGIC@ + be24(data.len()) + data
}

/// What the front of a stream holds.
pub enum Front {
    /// Less than a whole message.
    Incomplete,
    /// Something other than a message.
    BadMagic,
    /// A whole message with this encoding.
    Message(Seq<u8>),
}

/// The length that the header at the front announces.
pub open spec fn announced(stream: Seq<u8>) -> nat {
    (stream[7] * 0x1_0000 + stream[8] * 0x100 + stream[9]) as nat
}

pub open spec fn front(stream: Seq<u8>) -> Front {
    if stream.len() < HEADER_LEN {
        Front::Incomplete
    } else if stream.take(7) != MAGIC@ {
        Front::BadMagic
    } else if stream.len() < HEADER_LEN + announced(stream) {
        Front::Incomplete
    } else {
        Front::Message(stream.subrange(10, 10int + announced(stream)))
    }
}

/// The framing of a connection.
#[derive(Debug, Clone, Copy)]
pub struct Hal1210ServerCodec;

impl Hal1210ServerCodec {
    /// The encoding of the message at the front of the stream, if it is all there.
    /// The stream keeps the message until [`Self::consume`] is called, so that one
    /// that cannot be understood stays where it is.
    pub fn decode(&self, src: &mut BytesMut) -> (result: Result<Option<Vec<u8>>, Error>)
        ensures
            buffered(*final(src)) == buffered(*old(src)),
            match front(buffered(*old(src))) {
                Front::Incomplete => result is Ok && result->Ok_0 is None,
                Front::BadMagic => result is Err && result->Err_0 is InvalidMagic,
                Front::Message(data) => result is Ok && result->Ok_0 is Some
                    && result->Ok_0->Some_0@ == data,
            },
    {
        let bytes = as_slice(src);
        let have: usize = bytes.len();
        if have < HEADER_LEN {
            return Ok(None);
        }
        if !has_magic(bytes) {
            return Err(Error::InvalidMagic);
        }
        let len: usize = bytes[7] as usize * 0x1_0000 + bytes[8] as usize * 0x100
            + bytes[9] as usize;
        if have < HEADER_LEN + len {
            reserve(src, HEADER_LEN + len - have);
            return Ok(None);
        }
        let (_header, rest) = bytes.split_at(HEADER_LEN);
        let (message, _more) = rest.split_at(len);
        let mut data: Vec<u8> = Vec::new();
        data.extend_from_slice(message);
        assert(data@ =~= bytes@.subrange(10, 10int + announced(bytes@)));
        Ok(Some(data))
    }

    /// Drops the message at the front, whose encoding has `len` bytes.
    pub fn consume(&self, src: &mut BytesMut, len: usize)
        requires
            HEADER_LEN + len <= buffered(*old(src)).len(),
        ensures
            buffered(*final(src)) == buffered(*old(src)).skip(HEADER_LEN + len),
    {
        let have: usize = as_slice(src).len();
        assert(HEADER_LEN + len <= have);
        advance(src, HEADER_LEN + len);
    }

    /// Appends an encoded message with its header; one that is too long for the
    /// header is refused before anything is written.
    pub fn encode(&self, data: &[u8], dst: &mut BytesMut) -> (result: Result<(), Error>)
        requires
            buffered(*old(dst)).len() + HEADER_LEN + data@.len() <= isize::MAX,
        ensures
            data@.len() <= MAX_MESSAGE_LEN ==> result is Ok && buffered(*final(dst)) == buffered(
                *old(dst),
            ) + framed(data@),
            data@.len() > MAX_MESSAGE_LEN ==> result is Err && result->Err_0 is MessageTooLarge
                && buffered(*final(dst)) == buffered(*old(dst)),
    {
        let len: usize = data.len();
        if len > MAX_MESSAGE_LEN {
            return Err(Error::MessageTooLarge);
        }
        reserve(dst, HEADER_LEN + len);
        put_slice(dst, &MAGIC);
        let length: [u8; 3] = [
            (len / 0x1_0000) as u8,
            (len / 0x100 % 0x100) as u8,
            (len % 0x100) as u8,
        ];
        assert(length@ =~= be24(data@.len()));
        put_slice(dst, &length);
        put_slice(dst, data);
        assert(buffered(*dst) =~= buffered(*old(dst)) + framed(data@));
        Ok(())
    }
}

fn has_magic(bytes: &[u8]) -> (found: bool)
    requires
        bytes@.len() >= HEADER_LEN,
    ensures
        found == (bytes@.take(7) == MAGIC@),
{
    let mut i: usize = 0;
    while i < 7
        invariant
            i <= 7,
            bytes@.len() >= HEADER_LEN,
            forall|j: int| 0 <= j < i ==> bytes@[j] == MAGIC@[j],
        decreases 7 - i,
    {
        if bytes[i] != MAGIC[i] {
            assert(bytes@.take(7)[i as int] != MAGIC@[i as int]);
            return false;
        }
        i += 1;
    }
    assert(bytes@.take(7) =~= MAGIC@);
    true
}

/// A message that was framed is read back whole, whatever follows it, and dropping
/// it leaves exactly what follows.
pub proof fn framed_message_is_read_back(data: Seq<u8>, more: Seq<u8>)
    requires
        data.len() <= MAX_MESSAGE_LEN,
    ensures
        front(framed(data) + more) == Front::Message(data),
        (framed(data) + more).skip((HEADER_LEN + data.len()) as int) == more,
{
    let stream = framed(data) + more;
    assert(stream.take(7) =~= MAGIC@);
    assert(announced(stream) == data.len());
    assert(stream.subrange(10, 10int + data.len()) =~= data);
    assert(stream.skip((HEADER_LEN + data.len()) as int) =~= more);
}

/// Nothing is made of a message before its last byte is there.
pub proof fn partial_message_waits(data: Seq<u8>, n: int)
    requires
        data.len() <= MAX_MESSAGE_LEN,
        0 <= n < framed(data).len(),
    ensures
        front(framed(data).take(n)) == Front::Incomplete,
{
    let stream = framed(data).take(n);
    if n >= HEADER_LEN {
        assert(stream.take(7) =~= MAGIC@);
        assert(announced(stream) == data.len());
    }
}

/// A frame is the characters `HAL1210`, the length of the message with its most significant
/// byte first, and the message.
pub proof fn header_lies_in_order(data: Seq<u8>, i: int)
    requires
        data.len() <= MAX_MESSAGE_LEN,
        0 <= i < data.len(),
    ensures
        framed(data).len() == 10 + data.len(),
        framed(data).take(7) == seq![0x48u8, 0x41, 0x4c, 0x31, 0x32, 0x31, 0x30],
        framed(data)[7] * 0x1_0000 + framed(data)[8] * 0x100 + framed(data)[9] == data.len(),
        framed(data)[10 + i] == data[i],
{
    let n = data.len();
    assert(framed(data).take(7) =~= seq![0x48u8, 0x41, 0x4c, 0x31, 0x32, 0x31, 0x30]);
    assert(framed(data)[7] == (n / 0x1_0000) as u8);
    assert(framed(data)[8] == (n / 0x100 % 0x100) as u8);
    assert(framed(data)[9] == (n % 0x100) as u8);
}

/// A stream whose header has any other character is refused, however long it is.
pub proof fn other_magic_is_refused(stream: Seq<u8>, i: int)
    requires
        stream.len() >= 10,
        0 <= i < 7,
        stream[i] != seq![0x48u8, 0x41, 0x4c, 0x31, 0x32, 0x31, 0x30][i],
    ensures
        front(stream) is BadMagic,
{
    assert(stream.take(7)[i] == stream[i]);
    assert(MAGIC@[i] == seq![0x48u8, 0x41, 0x4c, 0x31, 0x32, 0x31, 0x30][i]);
}

/// Two different messages never look the same in a stream.
pub proof fn frames_are_told_apart(a: Seq<u8>, b: Seq<u8>, after_a: Seq<u8>, after_b: Seq<u8>)
    requires
        a.len() <= MAX_MESSAGE_LEN,
        b.len() <= MAX_MESSAGE_LEN,
        framed(a) + after_a == framed(b) + after_b,
    ensures
        a == b,
        after_a == after_b,
{
    framed_message_is_read_back(a, after_a);
    framed_message_is_read_back(b, after_b);
}

} // verus!
