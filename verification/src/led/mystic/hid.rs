//! Finding the controller's device file, and the requests that it takes.

use vstd::prelude::*;

use crate::text;

verus! {

pub const MSI_VENDOR_ID: u16 = 0x1462;

pub const TARGET_PRODUCT_ID: u16 = 0x7d77;

/// The bytes `DEVNAME=`.
pub const DEVNAME_KEY: [u8; 8] = [0x44, 0x45, 0x56, 0x4e, 0x41, 0x4d, 0x45, 0x3d];

/// The most bytes that are dumped.
pub const DUMP_LEN: usize = 64;

/// Whether a device is the controller.
pub fn is_controller(vendor_id: u16, product_id: u16) -> (controller: bool)
    ensures
        controller == (vendor_id == MSI_VENDOR_ID && product_id == TARGET_PRODUCT_ID),
{
    vendor_id == MSI_VENDOR_ID && product_id == TARGET_PRODUCT_ID
}

/// A request on a device file: a direction, a type, a number and a size.
pub fn hid_ioc(dir: u32, type_: u32, nr: u32, size: usize) -> (request: u32)
    ensures
        request == (dir << 30) | (type_ << 8) | nr | ((size as u32) << 16),
        dir < 4 && type_ < 0x100 && nr < 0x100 && size < 0x4000 ==> request == 0x4000_0000 * dir
            + 0x1_0000 * size + 0x100 * type_ + nr,
{
    let size_bits: u32 = size as u32;
    let request: u32 = (dir << 30) | (type_ << 8) | nr | (size_bits << 16);
    assert(dir < 4 && type_ < 0x100 && nr < 0x100 && size_bits < 0x4000 ==> (dir << 30) | (type_
        << 8) | nr | (size_bits << 16) == 0x4000_0000 * dir + 0x1_0000 * size_bits + 0x100 * type_
        + nr) by (bit_vector);
    request
}

/// The request that sends a feature report.
pub fn hid_iocsfeature(len: usize) -> (request: u32)
    ensures
        request == (3u32 << 30) | (0x48u32 << 8) | 6u32 | ((len as u32) << 16),
        len < 0x4000 ==> request == 0xc000_4806 + 0x1_0000 * len,
{
    hid_ioc(3, 0x48, 0x06, len)
}

/// The request that reads a feature report.
pub fn hid_iocgfeature(len: usize) -> (request: u32)
    ensures
        request == (3u32 << 30) | (0x48u32 << 8) | 7u32 | ((len as u32) << 16),
        len < 0x4000 ==> request == 0xc000_4807 + 0x1_0000 * len,
{
    hid_ioc(3, 0x48, 0x07, len)
}

/// The bytes as hexadecimal digits.
pub open spec fn hex_text(bytes: Seq<u8>) -> Seq<char>
    decreases bytes.len(),
{
    if bytes.len() == 0 {
        Seq::empty()
    } else {
        hex_text(bytes.drop_last()) + text::hex_byte(bytes.last() as nat)
    }
}

/// The first bytes as hexadecimal digits.
pub fn hex_dump(bytes: &[u8]) -> (dump: String)
    ensures
        dump@ == hex_text(
            if bytes@.len() <= DUMP_LEN {
                bytes@
            } else {
                bytes@.take(DUMP_LEN as int)
            },
        ),
{
    let len: usize = if bytes.len() <= DUMP_LEN {
        bytes.len()
    } else {
        DUMP_LEN
    };
    let mut dump = String::new();
    let mut i: usize = 0;
    assert(dump@ =~= hex_text(bytes@.take(0)));
    while i < len
        invariant
            i <= len <= bytes@.len(),
            dump@ == hex_text(bytes@.take(i as int)),
        decreases len - i,
    {
        text::push_hex_byte(&mut dump, bytes[i]);
        assert(bytes@.take(i + 1).drop_last() =~= bytes@.take(i as int));
        i += 1;
    }
    assert(bytes@.len() <= DUMP_LEN ==> bytes@.take(len as int) =~= bytes@);
    dump
}

/// Where the first line ends: at the first line feed, or at the end of the text.
pub open spec fn line_end(contents: Seq<u8>) -> int
    decreases contents.len(),
{
    if contents.len() == 0 || contents[0] == 0x0a {
        0
    } else {
        1 + line_end(contents.skip(1))
    }
}

/// The first line, without what ends it: a line feed, or a carriage return and a line
/// feed.
pub open spec fn first_line(contents: Seq<u8>) -> Seq<u8> {
    let end = line_end(contents);
    let line = contents.take(end);
    if end < contents.len() && line.len() > 0 && line.last() == 0x0d {
        line.drop_last()
    } else {
        line
    }
}

/// The text behind the first line.
pub open spec fn other_lines(contents: Seq<u8>) -> Seq<u8> {
    let end = line_end(contents);
    if end < contents.len() {
        contents.skip(end + 1)
    } else {
        Seq::empty()
    }
}

/// What the first line with the key `DEVNAME` says.
pub open spec fn devname(contents: Seq<u8>) -> Option<Seq<u8>>
    decreases contents.len(),
{
    proof {
        line_end_is_in_text(contents);
    }
    if contents.len() == 0 {
        None
    } else if first_line(contents).len() >= 8 && first_line(contents).take(8) == DEVNAME_KEY@ {
        Some(first_line(contents).skip(8))
    } else {
        devname(other_lines(contents))
    }
}

/// A line ends within the text.
pub proof fn line_end_is_in_text(contents: Seq<u8>)
    ensures
        0 <= line_end(contents) <= contents.len(),
    decreases contents.len(),
{
    if contents.len() > 0 && contents[0] != 0x0a {
        line_end_is_in_text(contents.skip(1));
    }
}

proof fn line_end_is_first(contents: Seq<u8>, end: int)
    requires
        0 <= end <= contents.len(),
        forall|i: int| 0 <= i < end ==> contents[i] != 0x0a,
        end == contents.len() || contents[end] == 0x0a,
    ensures
        line_end(contents) == end,
    decreases contents.len(),
{
    if end > 0 {
        let rest = contents.skip(1);
        assert forall|i: int| 0 <= i < end - 1 implies rest[i] != 0x0a by {
            assert(rest[i] == contents[i + 1]);
        }
        line_end_is_first(rest, end - 1);
    }
}

fn starts_with_key(contents: &[u8], start: usize, end: usize) -> (starts: bool)
    requires
        start <= end <= contents@.len(),
    ensures
        starts == (end - start >= 8 && contents@.subrange(start as int, end as int).take(8)
            == DEVNAME_KEY@),
{
    if end - start < 8 {
        return false;
    }
    let ghost head = contents@.subrange(start as int, end as int).take(8);
    let key: [u8; 8] = DEVNAME_KEY;
    let mut i: usize = 0;
    while i < 8
        invariant
            i <= 8,
            start + 8 <= end <= contents@.len(),
            head == contents@.subrange(start as int, end as int).take(8),
            key@ == DEVNAME_KEY@,
            forall|j: int| 0 <= j < i ==> head[j] == key@[j],
        decreases 8 - i,
    {
        if contents[start + i] != key[i] {
            assert(head[i as int] != key@[i as int]);
            return false;
        }
        i += 1;
    }
    assert(head =~= key@);
    true
}

/// The value of `DEVNAME` in the lines of a device's properties, as its place in the
/// text.
pub fn parse_devname(contents: &[u8]) -> (found: Option<(usize, usize)>)
    ensures
        match (found, devname(contents@)) {
            (Some((start, end)), Some(value)) => start <= end <= contents@.len()
                && contents@.subrange(start as int, end as int) == value,
            (None, None) => true,
            _ => false,
        },
{
    let mut start: usize = 0;
    assert(contents@.skip(0) =~= contents@);
    while start < contents.len()
        invariant
            start <= contents@.len(),
            devname(contents@) == devname(contents@.skip(start as int)),
        decreases contents@.len() - start,
    {
        let ghost rest = contents@.skip(start as int);
        let mut end: usize = start;
        while end < contents.len() && contents[end] != 0x0a
            invariant
                start <= end <= contents@.len(),
                forall|i: int| start <= i < end ==> contents@[i] != 0x0a,
            decreases contents@.len() - end,
        {
            end += 1;
        }
        proof {
            assert forall|i: int| 0 <= i < end - start implies rest[i] != 0x0a by {
                assert(rest[i] == contents@[start + i]);
            }
            line_end_is_first(rest, end - start);
        }
        let mut line: usize = end;
        if end < contents.len() && end > start && contents[end - 1] == 0x0d {
            line = end - 1;
        }
        assert(first_line(rest) =~= contents@.subrange(start as int, line as int));
        if starts_with_key(contents, start, line) {
            assert(first_line(rest).skip(8) =~= contents@.subrange(start + 8, line as int));
            return Some((start + 8, line));
        }
        if end == contents.len() {
            assert(other_lines(rest) =~= Seq::empty());
            return None;
        }
        assert(other_lines(rest) =~= contents@.skip(end + 1));
        start = end + 1;
    }
    assert(contents@.skip(start as int) =~= Seq::empty());
    None
}

/// A property that stands on its own line, behind lines that are about something else,
/// is found.
pub proof fn devname_is_found(before: Seq<u8>, value: Seq<u8>, after: Seq<u8>)
    requires
        forall|i: int| 0 <= i < value.len() ==> value[i] != 0x0a,
        value.len() == 0 || value.last() != 0x0d,
        before.len() == 0 || before.last() == 0x0a,
        devname(before) is None,
    ensures
        devname(before + DEVNAME_KEY@ + value + seq![0x0au8] + after) == Some(value),
    decreases before.len(),
{
    let contents = before + DEVNAME_KEY@ + value + seq![0x0au8] + after;
    let key: [u8; 8] = DEVNAME_KEY;
    if before.len() == 0 {
        assert forall|i: int| 0 <= i < 8 + value.len() implies contents[i] != 0x0a by {
            if i < 8 {
                assert(contents[i] == DEVNAME_KEY@[i]);
            } else {
                assert(contents[i] == value[i - 8]);
            }
        }
        assert(contents[8 + value.len() as int] == 0x0a);
        line_end_is_first(contents, 8 + value.len() as int);
        let line = contents.take(8 + value.len() as int);
        assert(line =~= DEVNAME_KEY@ + value);
        if value.len() > 0 {
            assert(line.last() == value.last());
        } else {
            assert(line.last() == DEVNAME_KEY@[7]);
        }
        assert(first_line(contents) == line);
        assert(line.take(8) =~= DEVNAME_KEY@);
        assert(line.skip(8) =~= value);
    } else {
        let end = line_end(before);
        line_end_is_in_text(before);
        line_end_is_before_feed(before);
        assert forall|i: int| 0 <= i < end implies contents[i] != 0x0a by {
            assert(contents[i] == before[i]);
        }
        assert(contents[end] == before[end]);
        line_end_is_first(contents, end);
        assert(contents.take(end) =~= before.take(end));
        let rest = before.skip(end + 1);
        assert(contents.skip(end + 1) =~= rest + DEVNAME_KEY@ + value + seq![0x0au8] + after);
        if rest.len() > 0 {
            assert(rest.last() == before.last());
        }
        devname_is_found(rest, value, after);
    }
}

proof fn line_end_is_before_feed(contents: Seq<u8>)
    requires
        contents.len() > 0,
        contents.last() == 0x0a,
    ensures
        line_end(contents) < contents.len(),
        contents[line_end(contents)] == 0x0a,
        forall|i: int| 0 <= i < line_end(contents) ==> contents[i] != 0x0a,
    decreases contents.len(),
{
    if contents[0] != 0x0a {
        let rest = contents.skip(1);
        assert(rest.last() == contents.last());
        line_end_is_before_feed(rest);
        line_end_is_in_text(rest);
        assert(contents[1 + line_end(rest)] == rest[line_end(rest)]);
        assert forall|i: int| 0 <= i < line_end(contents) implies contents[i] != 0x0a by {
            if i > 0 {
                assert(contents[i] == rest[i - 1]);
            }
        }
    }
}

/// Each byte is two digits of the text, in order.
pub proof fn bytes_are_dumped_in_order(bytes: Seq<u8>, i: int)
    requires
        0 <= i < bytes.len(),
    ensures
        hex_text(bytes).len() == 2 * bytes.len(),
        hex_text(bytes)[2 * i] == text::upper_digit_char(bytes[i] as nat / 16),
        hex_text(bytes)[2 * i + 1] == text::upper_digit_char(bytes[i] as nat % 16),
    decreases bytes.len(),
{
    let rest = bytes.drop_last();
    if rest.len() == 0 {
        assert(hex_text(rest).len() == 0);
    } else {
        bytes_are_dumped_in_order(rest, 0);
        if i < rest.len() {
            bytes_are_dumped_in_order(rest, i);
        }
    }
}

} // verus!
