//! Numbers as text.

use vstd::prelude::*;

verus! {

/// The character of a digit, hexadecimal ones in lower case.
pub open spec fn digit_char(d: nat) -> char {
    if d < 10 {
        (48 + d) as char
    } else {
        (87 + d) as char
    }
}

/// A number in decimal, without leading zeros.
pub open spec fn decimal(n: nat) -> Seq<char>
    decreases n,
{
    if n < 10 {
        seq![digit_char(n)]
    } else {
        decimal(n / 10).push(digit_char(n % 10))
    }
}

/// The character of a digit, hexadecimal ones in upper case.
pub open spec fn upper_digit_char(d: nat) -> char {
    if d < 10 {
        (48 + d) as char
    } else {
        (55 + d) as char
    }
}

/// A byte as two hexadecimal digits in upper case.
pub open spec fn hex_byte(b: nat) -> Seq<char> {
    seq![upper_digit_char(b / 16), upper_digit_char(b % 16)]
}

fn digit_text(d: u8) -> (text: &'static str)
    requires
        d < 16,
    ensures
        text@ == seq![upper_digit_char(d as nat)],
{
    proof {
        reveal_strlit("0");
        reveal_strlit("1");
        reveal_strlit("2");
        reveal_strlit("3");
        reveal_strlit("4");
        reveal_strlit("5");
        reveal_strlit("6");
        reveal_strlit("7");
        reveal_strlit("8");
        reveal_strlit("9");
        reveal_strlit("A");
        reveal_strlit("B");
        reveal_strlit("C");
        reveal_strlit("D");
        reveal_strlit("E");
        reveal_strlit("F");
    }
    let text = match d {
        0 => "0",
        1 => "1",
        2 => "2",
        3 => "3",
        4 => "4",
        5 => "5",
        6 => "6",
        7 => "7",
        8 => "8",
        9 => "9",
        10 => "A",
        11 => "B",
        12 => "C",
        13 => "D",
        14 => "E",
        _ => "F",
    };
    assert(text@ =~= seq![upper_digit_char(d as nat)]);
    text
}

/// Appends a digit, a hexadecimal one in upper case.
pub fn push_digit(out: &mut String, d: u8)
    requires
        d < 16,
    ensures
        final(out)@ == old(out)@.push(upper_digit_char(d as nat)),
{
    out.append(digit_text(d));
    assert(out@ =~= old(out)@.push(upper_digit_char(d as nat)));
}

/// Appends `n` in decimal.
pub fn push_decimal(out: &mut String, n: u64)
    ensures
        final(out)@ == old(out)@ + decimal(n as nat),
    decreases n,
{
    if n >= 10 {
        push_decimal(out, n / 10);
    }
    out.append(digit_text((n % 10) as u8));
    assert(out@ =~= old(out)@ + decimal(n as nat));
}

/// Appends a byte as two hexadecimal digits in upper case.
pub fn push_hex_byte(out: &mut String, b: u8)
    ensures
        final(out)@ == old(out)@ + hex_byte(b as nat),
{
    out.append(digit_text(b / 16));
    out.append(digit_text(b % 16));
    assert(out@ =~= old(out)@ + hex_byte(b as nat));
}

/// The two texts one after the other.
pub fn joined(a: &str, b: &str) -> (text: String)
    ensures
        text@ == a@ + b@,
{
    let mut text = String::from_str(a);
    text.append(b);
    text
}

/// Whether the two texts are the same.
pub fn same(a: &str, b: &str) -> (same: bool)
    ensures
        same == (a@ == b@),
{
    String::from_str(a) == String::from_str(b)
}

/// Different numbers have different decimal texts.
pub proof fn decimal_is_injective(a: nat, b: nat)
    requires
        decimal(a) == decimal(b),
    ensures
        a == b,
    decreases a,
{
    if a < 10 && b < 10 {
        assert(decimal(a)[0] == digit_char(a));
        assert(decimal(b)[0] == digit_char(b));
    } else if a < 10 {
        decimal_is_long(b);
    } else if b < 10 {
        decimal_is_long(a);
    } else {
        assert(decimal(a).drop_last() =~= decimal(a / 10));
        assert(decimal(b).drop_last() =~= decimal(b / 10));
        assert(decimal(a).last() == digit_char(a % 10));
        assert(decimal(b).last() == digit_char(b % 10));
        decimal_is_injective(a / 10, b / 10);
    }
}

proof fn decimal_is_long(n: nat)
    ensures
        decimal(n).len() >= 1,
        n >= 10 ==> decimal(n).len() >= 2,
    decreases n,
{
    if n >= 10 {
        decimal_is_long(n / 10);
    }
}

/// The digits of a byte make the byte again, the higher one first.
pub proof fn hex_digits_make_byte(b: u8)
    ensures
        hex_byte(b as nat).len() == 2,
        exists|high: nat, low: nat|
            high < 16 && low < 16 && #[trigger] upper_digit_char(high) == hex_byte(b as nat)[0]
                && #[trigger] upper_digit_char(low) == hex_byte(b as nat)[1] && 16 * high + low == b,
        forall|other: u8| hex_byte(other as nat) == #[trigger] hex_byte(b as nat) ==> other == b,
{
    let (high, low) = (b as nat / 16, b as nat % 16);
    assert(upper_digit_char(high) == hex_byte(b as nat)[0]);
    assert(upper_digit_char(low) == hex_byte(b as nat)[1]);
    assert forall|other: u8| hex_byte(other as nat) == #[trigger] hex_byte(b as nat) implies other
        == b by {
        assert(hex_byte(other as nat)[0] == hex_byte(b as nat)[0]);
        assert(hex_byte(other as nat)[1] == hex_byte(b as nat)[1]);
    }
}

/// Appending a digit to a number's text is multiplying the number by ten and adding the
/// digit.
pub proof fn digits_are_written_in_order(n: nat, d: nat)
    requires
        0 < n,
        d < 10,
    ensures
        decimal(10 * n + d) == decimal(n).push((48 + d) as char),
        decimal(d) == seq![(48 + d) as char],
{
    assert((10 * n + d) / 10 == n && (10 * n + d) % 10 == d);
}

} // verus!
