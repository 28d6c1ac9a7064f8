//! Message identifiers: UUIDs as 128-bit numbers.

use vstd::prelude::*;

use crate::text;

verus! {

pub type MessageId = u128;

/// Whether the number is laid out as a random UUID: version four, and the variant
/// of the standard.
pub open spec fn is_random_uuid(id: u128) -> bool {
    &&& (id / 0x1000_0000_0000_0000_0000) % 16 == 4
    &&& (id / 0x4000_0000_0000_0000) % 4 == 2
}

/// Hexadecimal digit `i` of the number, the most significant first.
pub open spec fn hex_digit(id: u128, i: int) -> nat
{
    (id as nat / vstd::arithmetic::power::pow(16, (31 - i) as nat) as nat) % 16
}

/// A UUID as text: 32 hexadecimal digits in five groups.
pub open spec fn uuid_text(id: u128) -> Seq<char> {
    Seq::new(
        36,
        |i: int|
            if i < 8 {
                text::digit_char(hex_digit(id, i))
            } else if i == 8 || i == 13 || i == 18 || i == 23 {
                '-'
            } else if i < 13 {
                text::digit_char(hex_digit(id, i - 1))
            } else if i < 18 {
                text::digit_char(hex_digit(id, i - 2))
            } else if i < 23 {
                text::digit_char(hex_digit(id, i - 3))
            } else {
                text::digit_char(hex_digit(id, i - 4))
            },
    )
}

/// Calls `uuid::Uuid::new_v4`. The number is random but for the bits that mark a
/// random UUID.
#[verifier::external_body]
pub(crate) fn new_id() -> (id: MessageId)
    ensures
        is_random_uuid(id),
{
    uuid::Uuid::new_v4().as_u128()
}

/// Calls `uuid::Uuid::nil`, the UUID that is all zeros.
#[verifier::external_body]
pub(crate) fn nil_id() -> (id: MessageId)
    ensures
        id == 0,
{
    uuid::Uuid::nil().as_u128()
}

/// Formats through `uuid::Uuid`: lower-case digits with hyphens.
#[verifier::external_body]
pub(crate) fn id_text(id: MessageId) -> (text: String)
    ensures
        text@ == uuid_text(id),
{
    uuid::Uuid::from_u128(id).to_string()
}

/// The text of a random UUID tells its version: the third group starts with a four.
pub proof fn text_tells_version(id: u128)
    requires
        is_random_uuid(id),
    ensures
        uuid_text(id)[14] == '4',
{
    assert(vstd::arithmetic::power::pow(16, 19) == 0x1000_0000_0000_0000_0000) by {
        reveal_with_fuel(vstd::arithmetic::power::pow, 20);
    }
    assert(hex_digit(id, 12) == 4);
}

} // verus!
