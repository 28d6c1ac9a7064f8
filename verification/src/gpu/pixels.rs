//! Pixel formats of shared buffers.

use vstd::prelude::*;

verus! {

pub const DRM_FORMAT_ARGB8888: u32 = 0x3432_5241;

pub const DRM_FORMAT_XRGB8888: u32 = 0x3432_5258;

pub const DRM_FORMAT_ABGR8888: u32 = 0x3432_4241;

pub const DRM_FORMAT_XBGR8888: u32 = 0x3432_4258;

/// The order in which an image holds its channels.
#[derive(Debug, Clone, Copy, PartialEq, Eq, Structural)]
pub enum ImageFormat {
    B8G8R8A8,
    R8G8B8A8,
}

/// Four characters as one number, the first in the lowest byte.
pub open spec fn fourcc_code(bytes: Seq<u8>) -> int {
    bytes[0] + 0x100 * bytes[1] + 0x1_0000 * bytes[2] + 0x100_0000 * bytes[3]
}

/// The four bytes of a code, the lowest first.
pub open spec fn fourcc_bytes(code: u32) -> Seq<u8> {
    seq![
        (code % 0x100) as u8,
        (code / 0x100 % 0x100) as u8,
        (code / 0x1_0000 % 0x100) as u8,
        (code / 0x100_0000) as u8,
    ]
}

pub open spec fn is_known_format(format: u32) -> bool {
    ||| format == DRM_FORMAT_ARGB8888
    ||| format == DRM_FORMAT_XRGB8888
    ||| format == DRM_FORMAT_ABGR8888
    ||| format == DRM_FORMAT_XBGR8888
}

/// The image format for a buffer's format, if there is one.
pub open spec fn image_format(format: u32) -> Option<ImageFormat> {
    if format == DRM_FORMAT_ARGB8888 || format == DRM_FORMAT_XRGB8888 {
        Some(ImageFormat::B8G8R8A8)
    } else if format == DRM_FORMAT_ABGR8888 || format == DRM_FORMAT_XBGR8888 {
        Some(ImageFormat::R8G8B8A8)
    } else {
        None
    }
}

/// The text that `String::from_utf8_lossy` makes of some bytes.
pub uninterp spec fn lossy_text(bytes: Seq<u8>) -> Seq<char>;

/// Calls `String::from_utf8_lossy`. What is valid UTF-8 is decoded; elsewhere
/// replacement characters stand in, about which nothing more is said here.
#[verifier::external_body]
fn from_utf8_lossy(bytes: &[u8]) -> (text: String)
    ensures
        text@ == lossy_text(bytes@),
        vstd::utf8::valid_utf8(bytes@) ==> text@ == vstd::utf8::decode_utf8(bytes@),
{
    String::from_utf8_lossy(bytes).into_owned()
}

/// The code of four characters.
pub fn fourcc(a: u8, b: u8, c: u8, d: u8) -> (code: u32)
    ensures
        code == fourcc_code(seq![a, b, c, d]),
{
    assert((a as u32) | ((b as u32) << 8) | ((c as u32) << 16) | ((d as u32) << 24) == (a as u32)
        + 0x100 * (b as u32) + 0x1_0000 * (c as u32) + 0x100_0000 * (d as u32)) by (bit_vector);
    (a as u32) | ((b as u32) << 8) | ((c as u32) << 16) | ((d as u32) << 24)
}

fn bytes_of(code: u32) -> (bytes: [u8; 4])
    ensures
        bytes@ == fourcc_bytes(code),
{
    assert(code & 0xff == code % 0x100 && (code >> 8) & 0xff == code / 0x100 % 0x100 && (code >> 16)
        & 0xff == code / 0x1_0000 % 0x100 && (code >> 24) & 0xff == code / 0x100_0000)
        by (bit_vector);
    let bytes: [u8; 4] = [
        (code & 0xff) as u8,
        ((code >> 8) & 0xff) as u8,
        ((code >> 16) & 0xff) as u8,
        ((code >> 24) & 0xff) as u8,
    ];
    assert(bytes@ =~= fourcc_bytes(code));
    bytes
}

/// A code as the four characters it stands for.
pub fn fourcc_string(code: u32) -> (text: String)
    ensures
        text@ == lossy_text(fourcc_bytes(code)),
        vstd::utf8::valid_utf8(fourcc_bytes(code)) ==> text@ == vstd::utf8::decode_utf8(
            fourcc_bytes(code),
        ),
{
    let bytes = bytes_of(code);
    from_utf8_lossy(&bytes)
}

/// The bytes of a pixel, and whether the format is known. A pixel of an unknown format
/// is taken to have four bytes, as one of a known format has.
pub fn format_bytes_per_pixel(format: u32) -> (size: (u32, bool))
    ensures
        size == (4u32, is_known_format(format)),
{
    let known = format == DRM_FORMAT_ARGB8888 || format == DRM_FORMAT_XRGB8888 || format
        == DRM_FORMAT_ABGR8888 || format == DRM_FORMAT_XBGR8888;
    (4, known)
}

/// The image format for a buffer's format, if there is one.
pub fn vk_format_from_drm(format: u32) -> (image: Option<ImageFormat>)
    ensures
        image == image_format(format),
        image is Some == is_known_format(format),
        format == DRM_FORMAT_ARGB8888 || format == DRM_FORMAT_XRGB8888 ==> image == Some(
            ImageFormat::B8G8R8A8,
        ),
        format == DRM_FORMAT_ABGR8888 || format == DRM_FORMAT_XBGR8888 ==> image == Some(
            ImageFormat::R8G8B8A8,
        ),
{
    if format == DRM_FORMAT_ARGB8888 || format == DRM_FORMAT_XRGB8888 {
        Some(ImageFormat::B8G8R8A8)
    } else if format == DRM_FORMAT_ABGR8888 || format == DRM_FORMAT_XBGR8888 {
        Some(ImageFormat::R8G8B8A8)
    } else {
        None
    }
}

/// A code can be taken apart into the four bytes it was made of.
pub proof fn fourcc_is_taken_apart(a: u8, b: u8, c: u8, d: u8)
    ensures
        fourcc_bytes(fourcc_code(seq![a, b, c, d]) as u32) == seq![a, b, c, d],
{
    let code = fourcc_code(seq![a, b, c, d]) as u32;
    assert(code % 0x100 == a && code / 0x100 % 0x100 == b && code / 0x1_0000 % 0x100 == c && code
        / 0x100_0000 == d) by (bit_vector)
        requires
            code == a + 0x100 * b + 0x1_0000 * c + 0x100_0000 * d,
    ;
    assert(fourcc_bytes(code) =~= seq![a, b, c, d]);
}

/// A format is known by its four characters: `R24` after an `A` or an `X` is an image with
/// blue first, `B24` after one of them is an image with red first, and nothing else is an
/// image.
pub proof fn formats_go_by_their_characters(a: u8, b: u8, c: u8, d: u8)
    ensures
        ({
            let found = image_format(fourcc_code(seq![a, b, c, d]) as u32);
            let plain = (a == 0x41 || a == 0x58) && c == 0x32 && d == 0x34;
            &&& found == Some(ImageFormat::B8G8R8A8) <==> plain && b == 0x52
            &&& found == Some(ImageFormat::R8G8B8A8) <==> plain && b == 0x42
            &&& is_known_format(fourcc_code(seq![a, b, c, d]) as u32) <==> plain && (b == 0x52 || b
                == 0x42)
        }),
{
    fourcc_is_taken_apart(a, b, c, d);
    let bytes = fourcc_bytes(fourcc_code(seq![a, b, c, d]) as u32);
    assert(bytes[0] == a && bytes[1] == b && bytes[2] == c && bytes[3] == d);
}

} // verus!
