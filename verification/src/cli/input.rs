//! The fields of the console that are typed into.

use vstd::prelude::*;

use crate::daemoncomm::Color;
use crate::text;
use crate::text::push_digit;

verus! {

/// The keys that mean something to the console.
#[derive(Debug, Clone, Copy, PartialEq, Eq, Structural)]
pub enum KeyCode {
    Esc,
    Enter,
    Backspace,
    Up,
    Down,
    PageUp,
    PageDown,
    Home,
    End,
    Char(char),
    Other,
}

/// A key that was pressed.
#[derive(Debug, Clone, Copy, PartialEq, Eq, Structural)]
pub struct Key {
    pub code: KeyCode,
    /// Whether the control key was held, and no other modifier.
    pub control: bool,
}

/// A field, as a value.
#[verifier::ext_equal]
pub struct InputModel {
    pub buffer: Seq<char>,
    pub editing: bool,
}

/// The value of a hexadecimal digit in either case.
pub open spec fn digit_value(c: char) -> Option<nat> {
    if '0' <= c <= '9' {
        Some((c as int - '0' as int) as nat)
    } else if 'A' <= c <= 'F' {
        Some((c as int - 'A' as int + 10) as nat)
    } else if 'a' <= c <= 'f' {
        Some((c as int - 'a' as int + 10) as nat)
    } else {
        None
    }
}

fn value_of(c: char) -> (value: Option<u8>)
    ensures
        match value {
            Some(value) => value < 16 && digit_value(c) == Some(value as nat),
            None => digit_value(c) is None,
        },
{
    if '0' <= c && c <= '9' {
        Some((c as u32 - 48) as u8)
    } else if 'A' <= c && c <= 'F' {
        Some((c as u32 - 55) as u8)
    } else if 'a' <= c && c <= 'f' {
        Some((c as u32 - 87) as u8)
    } else {
        None
    }
}

/// Whether the text is made of upper-case hexadecimal digits.
pub open spec fn is_hex(buffer: Seq<char>) -> bool {
    forall|i: int|
        0 <= i < buffer.len() ==> '0' <= #[trigger] buffer[i] <= '9' || 'A' <= buffer[i] <= 'F'
}

/// Whether the text is made of decimal digits.
pub open spec fn is_decimal(buffer: Seq<char>) -> bool {
    forall|i: int| 0 <= i < buffer.len() ==> '0' <= #[trigger] buffer[i] <= '9'
}

/// The number that decimal digits stand for.
pub open spec fn number(digits: Seq<char>) -> nat
    decreases digits.len(),
{
    if digits.len() == 0 {
        0
    } else {
        10 * number(digits.drop_last()) + (digits.last() as int - '0' as int) as nat
    }
}

/// The text without its last character.
pub open spec fn without_last(buffer: Seq<char>) -> Seq<char> {
    if buffer.len() == 0 {
        buffer
    } else {
        buffer.drop_last()
    }
}

fn drop_last(buffer: &mut String)
    ensures
        final(buffer)@ == without_last(old(buffer)@),
{
    let len: usize = buffer.as_str().unicode_len();
    if len > 0 {
        let shorter = String::from_str(buffer.as_str().substring_char(0, len - 1));
        assert(shorter@ =~= old(buffer)@.drop_last());
        *buffer = shorter;
    }
}

impl InputModel {
    /// The colour field after a key, and whether it took the key.
    pub open spec fn color_key(self, code: KeyCode) -> (InputModel, bool) {
        if !self.editing {
            (self, false)
        } else {
            match code {
                KeyCode::Enter | KeyCode::Esc => (InputModel { editing: false, ..self }, true),
                KeyCode::Backspace => (
                    InputModel { buffer: without_last(self.buffer), ..self },
                    true,
                ),
                KeyCode::Char(c) => if digit_value(c) is Some && self.buffer.len() < 6 {
                    (
                        InputModel {
                            buffer: self.buffer.push(
                                text::upper_digit_char(digit_value(c)->Some_0),
                            ),
                            ..self
                        },
                        true,
                    )
                } else {
                    (self, true)
                },
                _ => (self, false),
            }
        }
    }

    /// A duration field after a key, and whether it took the key: while it is edited, it
    /// takes all keys.
    pub open spec fn duration_key(self, code: KeyCode) -> (InputModel, bool) {
        if !self.editing {
            (self, false)
        } else {
            match code {
                KeyCode::Enter | KeyCode::Esc => (InputModel { editing: false, ..self }, true),
                KeyCode::Backspace => (
                    InputModel { buffer: without_last(self.buffer), ..self },
                    true,
                ),
                KeyCode::Char(c) => if '0' <= c <= '9' && self.buffer.len() < 9 {
                    (InputModel { buffer: self.buffer.push(c), ..self }, true)
                } else {
                    (self, true)
                },
                _ => (self, true),
            }
        }
    }

    pub open spec fn toggled(self) -> InputModel {
        InputModel { editing: !self.editing, ..self }
    }

    pub open spec fn stopped(self) -> InputModel {
        InputModel { editing: false, ..self }
    }

    /// The colour, once all six digits are there.
    pub open spec fn color(self) -> Option<Seq<u8>> {
        if self.buffer.len() != 6 {
            None
        } else {
            Some(
                Seq::new(
                    3,
                    |i: int|
                        (16 * digit_value(self.buffer[2 * i])->Some_0 + digit_value(
                            self.buffer[2 * i + 1],
                        )->Some_0) as u8,
                ),
            )
        }
    }

    /// The colour field as it is shown.
    pub open spec fn color_text(self) -> Seq<char> {
        "#"@ + self.buffer + Seq::new(
            if self.buffer.len() < 6 {
                (6 - self.buffer.len()) as nat
            } else {
                0
            },
            |i: int| '_',
        )
    }

    /// The duration, unless the field is empty.
    pub open spec fn duration(self) -> Option<u64> {
        if self.buffer.len() == 0 {
            None
        } else {
            Some(number(self.buffer) as u64)
        }
    }

    /// A duration field as it is shown.
    pub open spec fn duration_text(self) -> Seq<char> {
        if self.buffer.len() == 0 {
            "none"@
        } else {
            self.buffer + " ms"@
        }
    }

    /// What holds of the colour field.
    pub open spec fn is_color(self) -> bool {
        self.buffer.len() <= 6 && is_hex(self.buffer)
    }

    /// What holds of a duration field.
    pub open spec fn is_duration(self) -> bool {
        is_decimal(self.buffer) && number(self.buffer) <= u64::MAX
    }
}

/// The field for a colour.
#[derive(Debug)]
pub struct ColorInput {
    buffer: String,
    editing: bool,
}

impl View for ColorInput {
    type V = InputModel;

    closed spec fn view(&self) -> InputModel {
        InputModel { buffer: self.buffer@, editing: self.editing }
    }
}

impl ColorInput {
    pub fn new() -> (input: Self)
        ensures
            input@ == (InputModel { buffer: "FF8800"@, editing: false }),
            input@.is_color(),
    {
        proof {
            reveal_strlit("FF8800");
        }
        ColorInput { buffer: String::from_str("FF8800"), editing: false }
    }

    /// The field as it is shown, with a mark for each digit that is missing.
    pub fn formatted(&self) -> (text: String)
        ensures
            text@ == self@.color_text(),
    {
        let mut text = text::joined("#", self.buffer.as_str());
        let len: usize = self.buffer.as_str().unicode_len();
        let mut i: usize = len;
        proof {
            reveal_strlit("_");
        }
        assert(text@ =~= "#"@ + self.buffer@ + Seq::new(0, |i: int| '_'));
        while i < 6
            invariant
                len <= i,
                i <= 6 || i == len,
                len == self.buffer@.len(),
                "_"@ == seq!['_'],
                text@ == "#"@ + self.buffer@ + Seq::new((i - len) as nat, |i: int| '_'),
            decreases 6 - i,
        {
            text.append("_");
            i += 1;
            assert(text@ =~= "#"@ + self.buffer@ + Seq::new((i - len) as nat, |i: int| '_'));
        }
        text
    }

    fn channel(&self, at: usize) -> (value: u8)
        requires
            self@.is_color(),
            at + 1 < self@.buffer.len(),
        ensures
            value == 16 * digit_value(self@.buffer[at as int])->Some_0 + digit_value(
                self@.buffer[at + 1],
            )->Some_0,
    {
        let text = self.buffer.as_str();
        let (a, b) = (text.get_char(at), text.get_char(at + 1));
        assert(digit_value(self@.buffer[at as int]) is Some);
        assert(digit_value(self@.buffer[at + 1]) is Some);
        match (value_of(a), value_of(b)) {
            (Some(high), Some(low)) => 16 * high + low,
            _ => 0,
        }
    }

    /// The colour, once all six digits are there.
    pub fn color(&self) -> (color: Option<Color>)
        requires
            self@.is_color(),
        ensures
            match (color, self@.color()) {
                (Some(color), Some(channels)) => color@ == channels,
                (None, None) => true,
                _ => false,
            },
    {
        if self.buffer.as_str().unicode_len() != 6 {
            return None;
        }
        let color: Color = [self.channel(0), self.channel(2), self.channel(4)];
        assert(color@ =~= self@.color()->Some_0);
        Some(color)
    }

    /// Whether all six digits are there.
    pub fn is_complete(&self) -> (complete: bool)
        ensures
            complete == (self@.buffer.len() == 6),
    {
        self.buffer.as_str().unicode_len() == 6
    }

    pub fn is_editing(&self) -> (editing: bool)
        ensures
            editing == self@.editing,
    {
        self.editing
    }

    pub fn toggle_editing(&mut self)
        ensures
            final(self)@ == old(self)@.toggled(),
    {
        self.editing = !self.editing;
    }

    /// Takes a key, if it is one for the field.
    pub fn handle_key(&mut self, key: Key) -> (taken: bool)
        requires
            old(self)@.is_color(),
        ensures
            (final(self)@, taken) == old(self)@.color_key(key.code),
            final(self)@.is_color(),
    {
        if !self.editing {
            return false;
        }
        match key.code {
            KeyCode::Enter | KeyCode::Esc => {
                self.editing = false;
                true
            },
            KeyCode::Backspace => {
                drop_last(&mut self.buffer);
                true
            },
            KeyCode::Char(c) => {
                if let Some(value) = value_of(c) {
                    if self.buffer.as_str().unicode_len() < 6 {
                        push_digit(&mut self.buffer, value);
                    }
                }
                true
            },
            _ => false,
        }
    }
}

/// The field for a duration in milliseconds.
#[derive(Debug)]
pub struct DurationInput {
    label: &'static str,
    buffer: String,
    editing: bool,
}

impl View for DurationInput {
    type V = InputModel;

    closed spec fn view(&self) -> InputModel {
        InputModel { buffer: self.buffer@, editing: self.editing }
    }
}

impl DurationInput {
    /// What the field is called.
    pub closed spec fn name(&self) -> Seq<char> {
        self.label@
    }

    pub fn new(label: &'static str, default_ms: Option<u64>) -> (input: Self)
        ensures
            input.name() == label@,
            input@ == (InputModel {
                buffer: match default_ms {
                    Some(ms) => text::decimal(ms as nat),
                    None => Seq::empty(),
                },
                editing: false,
            }),
            input@.is_duration(),
            input@.duration() == default_ms,
    {
        let mut buffer = String::new();
        if let Some(ms) = default_ms {
            text::push_decimal(&mut buffer, ms);
            proof {
                assert(buffer@ =~= text::decimal(ms as nat));
                decimal_is_read_back(ms as nat);
            }
        }
        DurationInput { label, buffer, editing: false }
    }

    /// The field as it is shown.
    pub fn formatted(&self) -> (text: String)
        ensures
            text@ == self@.duration_text(),
    {
        if self.buffer.as_str().unicode_len() == 0 {
            String::from_str("none")
        } else {
            text::joined(self.buffer.as_str(), " ms")
        }
    }

    /// The duration, unless the field is empty.
    pub fn value(&self) -> (value: Option<u64>)
        requires
            self@.is_duration(),
        ensures
            value == self@.duration(),
    {
        let text = self.buffer.as_str();
        let len: usize = text.unicode_len();
        if len == 0 {
            return None;
        }
        let mut value: u64 = 0;
        let mut i: usize = 0;
        while i < len
            invariant
                i <= len == text@.len(),
                text@ == self@.buffer,
                self@.is_duration(),
                value == number(text@.take(i as int)),
            decreases len - i,
        {
            let c = text.get_char(i);
            assert('0' <= text@[i as int] <= '9');
            let digit: u64 = (c as u32 - 48) as u64;
            proof {
                assert(text@.take(i + 1).drop_last() =~= text@.take(i as int));
                prefix_is_no_larger(text@, i + 1);
            }
            value = 10 * value + digit;
            i += 1;
        }
        assert(text@.take(i as int) =~= text@);
        Some(value)
    }

    pub fn toggle_editing(&mut self)
        ensures
            final(self)@ == old(self)@.toggled(),
            final(self).name() == old(self).name(),
    {
        self.editing = !self.editing;
    }

    pub fn stop_editing(&mut self)
        ensures
            final(self)@ == old(self)@.stopped(),
            final(self).name() == old(self).name(),
    {
        self.editing = false;
    }

    pub fn label(&self) -> (label: &'static str)
        ensures
            label@ == self.name(),
    {
        self.label
    }

    pub fn is_editing(&self) -> (editing: bool)
        ensures
            editing == self@.editing,
    {
        self.editing
    }

    /// Takes a key, if the field is being edited.
    pub fn handle_key(&mut self, key: Key) -> (taken: bool)
        requires
            old(self)@.is_duration(),
        ensures
            (final(self)@, taken) == old(self)@.duration_key(key.code),
            final(self)@.is_duration(),
            final(self).name() == old(self).name(),
    {
        if !self.editing {
            return false;
        }
        match key.code {
            KeyCode::Enter | KeyCode::Esc => {
                self.editing = false;
            },
            KeyCode::Backspace => {
                proof {
                    if self.buffer@.len() > 0 {
                        prefix_is_no_larger(self.buffer@, self.buffer@.len() - 1);
                        assert(self.buffer@.take(self.buffer@.len() - 1)
                            =~= self.buffer@.drop_last());
                    }
                }
                drop_last(&mut self.buffer);
            },
            KeyCode::Char(c) => {
                if '0' <= c && c <= '9' {
                    if self.buffer.as_str().unicode_len() < 9 {
                        push_digit(&mut self.buffer, (c as u32 - 48) as u8);
                        proof {
                            assert(text::upper_digit_char((c as int - 48) as nat) == c);
                            assert(self.buffer@ == old(self)@.buffer.push(c));
                            nine_digits_are_small(self.buffer@);
                        }
                    }
                }
            },
            _ => {},
        }
        true
    }
}

proof fn prefix_is_no_larger(digits: Seq<char>, n: int)
    requires
        is_decimal(digits),
        0 <= n <= digits.len(),
    ensures
        number(digits.take(n)) <= number(digits),
    decreases digits.len(),
{
    if n < digits.len() {
        let shorter = digits.drop_last();
        prefix_is_no_larger(shorter, n);
        assert(shorter.take(n) =~= digits.take(n));
        assert('0' <= digits[digits.len() - 1]);
    } else {
        assert(digits.take(n) =~= digits);
    }
}

proof fn digits_bound(digits: Seq<char>)
    requires
        is_decimal(digits),
    ensures
        number(digits) < vstd::arithmetic::power::pow(10, digits.len()),
    decreases digits.len(),
{
    if digits.len() == 0 {
        vstd::arithmetic::power::lemma_pow0(10);
    } else {
        digits_bound(digits.drop_last());
        assert('0' <= digits[digits.len() - 1] <= '9');
        assert(vstd::arithmetic::power::pow(10, digits.len()) == 10
            * vstd::arithmetic::power::pow(10, (digits.len() - 1) as nat)) by {
            reveal(vstd::arithmetic::power::pow);
        }
    }
}

proof fn nine_digits_are_small(digits: Seq<char>)
    requires
        is_decimal(digits),
        digits.len() <= 9,
    ensures
        number(digits) <= u64::MAX,
{
    digits_bound(digits);
    vstd::arithmetic::power::lemma_pow_increases(10, digits.len(), 9);
    assert(vstd::arithmetic::power::pow(10, 9) == 1_000_000_000) by {
        reveal(vstd::arithmetic::power::pow);
        reveal_with_fuel(vstd::arithmetic::power::pow, 10);
    }
}

/// A number that is written in decimal is read back as itself.
pub proof fn decimal_is_read_back(n: nat)
    ensures
        is_decimal(text::decimal(n)),
        number(text::decimal(n)) == n,
        text::decimal(n).len() > 0,
    decreases n,
{
    let digits = text::decimal(n);
    if n < 10 {
        assert(digits.drop_last() =~= Seq::empty());
        assert(number(Seq::empty()) == 0);
    } else {
        decimal_is_read_back(n / 10);
        assert(digits.drop_last() =~= text::decimal(n / 10));
        assert(digits.last() == text::digit_char(n % 10));
        assert forall|i: int| 0 <= i < digits.len() implies '0' <= #[trigger] digits[i]
            <= '9' by {
            if i < digits.len() - 1 {
                assert(digits[i] == text::decimal(n / 10)[i]);
            }
        }
    }
}

/// A digit that was typed by mistake is taken back by one that is deleted.
pub proof fn typed_digit_can_be_deleted(input: InputModel, c: char)
    requires
        input.editing,
        input.buffer.len() < 6,
        '0' <= c <= '9',
    ensures
        input.color_key(KeyCode::Char(c)).0.color_key(KeyCode::Backspace).0 == input,
        input.duration_key(KeyCode::Char(c)).0.duration_key(KeyCode::Backspace).0 == input,
{
    assert(input.buffer.push(c).drop_last() =~= input.buffer);
    let digit = text::upper_digit_char(digit_value(c)->Some_0);
    assert(input.buffer.push(digit).drop_last() =~= input.buffer);
}

/// A digit that is typed goes behind the number: it is ten times as large, and the digit.
/// Nothing that is no digit gets into a number, and no more than nine digits do.
pub proof fn typed_digit_extends_number(input: InputModel, c: char)
    requires
        input.editing,
    ensures
        ({
            let typed = input.duration_key(KeyCode::Char(c)).0;
            &&& typed.editing
            &&& input.buffer.len() < 9 && '0' <= c <= '9' ==> number(typed.buffer) == 10 * number(
                input.buffer,
            ) + (c as int - '0' as int) && typed.buffer.len() == input.buffer.len() + 1
            &&& !('0' <= c <= '9') || input.buffer.len() >= 9 ==> typed == input
        }),
{
    if input.buffer.len() < 9 && '0' <= c <= '9' {
        assert(input.buffer.push(c).drop_last() =~= input.buffer);
    }
}

/// A duration that is written in the field is the one that is read from it, and a field
/// without digits has none.
pub proof fn written_duration_is_read(input: InputModel, ms: u64)
    ensures
        input.buffer == text::decimal(ms as nat) ==> input.duration() == Some(ms),
        input.buffer.len() == 0 <==> input.duration() is None,
{
    decimal_is_read_back(ms as nat);
}

/// The colour field takes digits in either case for the same, and no more than six.
pub proof fn color_digits_are_taken_in_either_case(input: InputModel, c: char)
    requires
        input.editing,
        'a' <= c <= 'f',
    ensures
        ({
            let upper = (c as int - 'a' as int + 'A' as int) as char;
            &&& input.color_key(KeyCode::Char(c)) == input.color_key(KeyCode::Char(upper))
            &&& input.color_key(KeyCode::Char(c)).1
            &&& input.buffer.len() < 6 ==> input.color_key(KeyCode::Char(c)).0.buffer
                == input.buffer.push(upper)
            &&& input.buffer.len() >= 6 ==> input.color_key(KeyCode::Char(c)).0 == input
        }),
{
}

/// What is no hexadecimal digit does not get into a colour.
pub proof fn colors_are_made_of_digits(input: InputModel, c: char)
    requires
        input.editing,
        !('0' <= c <= '9'),
        !('A' <= c <= 'F'),
        !('a' <= c <= 'f'),
    ensures
        input.color_key(KeyCode::Char(c)) == (input, true),
{
}

/// The six digits of a colour are red, green and blue, the higher digit of each first.
pub proof fn written_color_is_read(input: InputModel, red: u8, green: u8, blue: u8)
    requires
        input.buffer == seq![
            text::upper_digit_char((red / 16) as nat),
            text::upper_digit_char((red % 16) as nat),
            text::upper_digit_char((green / 16) as nat),
            text::upper_digit_char((green % 16) as nat),
            text::upper_digit_char((blue / 16) as nat),
            text::upper_digit_char((blue % 16) as nat),
        ],
    ensures
        input.color() == Some(seq![red, green, blue]),
{
    hex_digit_is_read((red / 16) as nat);
    hex_digit_is_read((red % 16) as nat);
    hex_digit_is_read((green / 16) as nat);
    hex_digit_is_read((green % 16) as nat);
    hex_digit_is_read((blue / 16) as nat);
    hex_digit_is_read((blue % 16) as nat);
    assert(input.color()->Some_0 =~= seq![red, green, blue]);
}

proof fn hex_digit_is_read(d: nat)
    requires
        d < 16,
    ensures
        digit_value(text::upper_digit_char(d)) == Some(d),
{
}

/// A field that is not being typed into takes no key.
pub proof fn closed_field_takes_no_key(input: InputModel, code: KeyCode)
    requires
        !input.editing,
    ensures
        input.color_key(code) == (input, false),
        input.duration_key(code) == (input, false),
{
}

} // verus!
