//! Numbers in writing: decimal, zero-padded decimal, hexadecimal bytes, and
//! reading a decimal number back.

use crate::text::chars_of;
use std::num::IntErrorKind;
use vstd::prelude::*;

verus! {

/// The decimal digit of value `d`.
pub open spec fn digit(d: nat) -> char {
    ('0' as u32 + d) as char
}

/// `n` in decimal, without leading zeros.
pub open spec fn decimal(n: nat) -> Seq<char>
    decreases n,
{
    if n < 10 {
        seq![digit(n)]
    } else {
        decimal(n / 10).push(digit(n % 10))
    }
}

/// `n` in decimal, with zeros in front up to a length of `width`.
pub open spec fn zero_padded(n: nat, width: nat) -> Seq<char> {
    if decimal(n).len() >= width {
        decimal(n)
    } else {
        Seq::new((width - decimal(n).len()) as nat, |i: int| '0') + decimal(n)
    }
}

/// `n` in decimal, with a minus sign in front where it is negative.
pub open spec fn signed_decimal(n: int) -> Seq<char> {
    if n < 0 {
        seq!['-'] + decimal((-n) as nat)
    } else {
        decimal(n as nat)
    }
}

/// The character of a decimal digit.
fn digit_char(d: u8) -> (c: char)
    requires
        d < 10,
    ensures
        c == digit(d as nat),
{
    (48 + d) as char
}

/// Appends `n` in decimal.
pub fn push_decimal(text: &mut String, n: u64)
    ensures
        final(text)@ == old(text)@ + decimal(n as nat),
    decreases n,
{
    if n < 10 {
        text.push(digit_char(n as u8));
        assert(text@ =~= old(text)@ + decimal(n as nat));
    } else {
        push_decimal(text, n / 10);
        text.push(digit_char((n % 10) as u8));
        assert(text@ =~= old(text)@ + decimal(n as nat));
    }
}

/// Appends `n` in decimal, with zeros in front up to a length of `width`.
pub fn push_zero_padded(text: &mut String, n: u64, width: usize)
    ensures
        final(text)@ == old(text)@ + zero_padded(n as nat, width as nat),
    decreases n,
{
    if n < 10 {
        let mut zeros: usize = 1;
        assert(text@ =~= old(text)@ + Seq::new(0, |i: int| '0'));
        while zeros < width
            invariant
                1 <= zeros,
                zeros <= width || zeros == 1,
                text@ == old(text)@ + Seq::new((zeros - 1) as nat, |i: int| '0'),
            decreases width - zeros,
        {
            text.push('0');
            zeros = zeros + 1;
            assert(text@ =~= old(text)@ + Seq::new((zeros - 1) as nat, |i: int| '0'));
        }
        text.push(digit_char(n as u8));
        assert(text@ =~= old(text)@ + zero_padded(n as nat, width as nat));
    } else {
        push_zero_padded(text, n / 10, width.saturating_sub(1));
        text.push(digit_char((n % 10) as u8));
        proof {
            let short = zero_padded((n / 10) as nat, (if width == 0 { 0 } else { width - 1 }) as nat);
            assert(zero_padded(n as nat, width as nat) =~= short.push(digit((n % 10) as nat)));
            assert(text@ =~= old(text)@ + zero_padded(n as nat, width as nat));
        }
    }
}

/// Appends `n` in decimal, with a minus sign in front where it is negative.
pub fn push_signed_decimal(text: &mut String, n: i32)
    ensures
        final(text)@ == old(text)@ + signed_decimal(n as int),
{
    if n < 0 {
        text.push('-');
        push_decimal(text, (-(n as i64)) as u64);
        assert(text@ =~= old(text)@ + signed_decimal(n as int));
    } else {
        push_decimal(text, n as u64);
    }
}

/// The hexadecimal digit of value `d`, in small letters.
pub open spec fn hex_digit(d: nat) -> char {
    if d < 10 {
        ('0' as u32 + d) as char
    } else {
        ('a' as u32 + (d - 10)) as char
    }
}

/// A byte as two hexadecimal digits.
pub open spec fn hex_byte(b: u8) -> Seq<char> {
    seq![hex_digit((b / 16) as nat), hex_digit((b % 16) as nat)]
}

/// Bytes as two hexadecimal digits each.
pub open spec fn hex_bytes(bytes: Seq<u8>) -> Seq<char>
    decreases bytes.len(),
{
    if bytes.len() == 0 {
        Seq::empty()
    } else {
        hex_bytes(bytes.drop_last()) + hex_byte(bytes.last())
    }
}

/// The character of a hexadecimal digit.
fn hex_char(d: u8) -> (c: char)
    requires
        d < 16,
    ensures
        c == hex_digit(d as nat),
{
    if d < 10 {
        (48 + d) as char
    } else {
        (87 + d) as char
    }
}

/// Appends a byte as two hexadecimal digits.
pub fn push_hex_byte(text: &mut String, b: u8)
    ensures
        final(text)@ == old(text)@ + hex_byte(b),
{
    text.push(hex_char(b / 16));
    text.push(hex_char(b % 16));
    assert(text@ =~= old(text)@ + hex_byte(b));
}

/// Appends bytes as two hexadecimal digits each.
pub fn push_hex_bytes(text: &mut String, bytes: &[u8])
    ensures
        final(text)@ == old(text)@ + hex_bytes(bytes@),
{
    let mut i: usize = 0;
    assert(text@ =~= old(text)@ + hex_bytes(bytes@.take(0)));
    while i < bytes.len()
        invariant
            i <= bytes@.len(),
            text@ == old(text)@ + hex_bytes(bytes@.take(i as int)),
        decreases bytes@.len() - i,
    {
        push_hex_byte(text, bytes[i]);
        i = i + 1;
        assert(bytes@.take(i as int).drop_last() =~= bytes@.take(i - 1));
        assert(text@ =~= old(text)@ + hex_bytes(bytes@.take(i as int)));
    }
    assert(bytes@.take(i as int) =~= bytes@);
}

// Reading numbers -----------------------------------------------------------

/// Whether every character of `s` is a decimal digit.
pub open spec fn all_digits(s: Seq<char>) -> bool {
    forall|i: int| 0 <= i < s.len() ==> '0' <= #[trigger] s[i] <= '9'
}

/// The number that the digits of `s` write.
pub open spec fn digits_value(s: Seq<char>) -> nat
    decreases s.len(),
{
    if s.len() == 0 {
        0
    } else {
        10 * digits_value(s.drop_last()) + (s.last() as u32 - '0' as u32) as nat
    }
}

/// `s` without a plus sign in front.
pub open spec fn without_plus(s: Seq<char>) -> Seq<char> {
    if s.len() > 0 && s[0] == '+' {
        s.drop_first()
    } else {
        s
    }
}

/// Whether `s` writes a number: at least one digit and nothing but digits, a
/// plus sign in front being allowed.
pub open spec fn writes_number(s: Seq<char>) -> bool {
    without_plus(s).len() > 0 && all_digits(without_plus(s))
}

/// The number that `s` writes, where it writes one that is not above `max`.
pub open spec fn number_up_to(s: Seq<char>, max: nat) -> Option<nat> {
    if writes_number(s) && digits_value(without_plus(s)) <= max {
        Some(digits_value(without_plus(s)))
    } else {
        None
    }
}

/// A number in decimal is all digits.
pub proof fn decimal_is_digits(n: nat)
    ensures
        decimal(n).len() > 0,
        all_digits(decimal(n)),
    decreases n,
{
    if n >= 10 {
        decimal_is_digits(n / 10);
    }
}

/// Reading a number undoes writing it.
pub proof fn decimal_round_trip(n: nat)
    ensures
        digits_value(decimal(n)) == n,
    decreases n,
{
    if n < 10 {
        reveal_with_fuel(digits_value, 2);
    } else {
        decimal_round_trip(n / 10);
        assert(decimal(n).drop_last() =~= decimal(n / 10));
    }
}

/// Why a text could not be read as a number.
#[derive(Clone, Copy, Debug, PartialEq, Eq, Structural)]
pub enum NumberFault {
    /// The text is empty.
    Empty,
    /// A character stands where a digit belongs, or no digit is there.
    InvalidDigit,
    /// The number is too large.
    TooLarge,
}

impl NumberFault {
    /// The fault in words.
    pub open spec fn words(self) -> Seq<char> {
        match self {
            NumberFault::Empty => "cannot parse integer from empty string"@,
            NumberFault::InvalidDigit => "invalid digit found in string"@,
            NumberFault::TooLarge => "number too large to fit in target type"@,
        }
    }

    /// The fault in words.
    pub fn message(self) -> (text: &'static str)
        ensures
            text@ == self.words(),
    {
        match self {
            NumberFault::Empty => "cannot parse integer from empty string",
            NumberFault::InvalidDigit => "invalid digit found in string",
            NumberFault::TooLarge => "number too large to fit in target type",
        }
    }
}

/// Calls `str::parse::<usize>`: the text has to write a number that a `usize`
/// holds, and that number comes back. An empty text is reported as empty, a
/// number beyond `usize` as too large. A text that is neither empty nor a
/// number is not reported as empty; where it is too short to write a number
/// beyond `usize`, a digit is to blame, and else it is left open which of the
/// two other faults is named.
#[verifier::external_body]
pub(crate) fn parse_usize(s: &str) -> (number: Result<usize, NumberFault>)
    ensures
        match number {
            Ok(n) => number_up_to(s@, usize::MAX as nat) == Some(n as nat),
            Err(fault) => {
                &&& number_up_to(s@, usize::MAX as nat) is None
                &&& (fault is Empty <==> s@.len() == 0)
                &&& (writes_number(s@) ==> fault is TooLarge)
                &&& (0 < s@.len() < decimal(usize::MAX as nat).len() && !writes_number(s@)
                    ==> fault is InvalidDigit)
            },
        },
{
    match s.parse::<usize>() {
        Ok(n) => Ok(n),
        Err(error) => match error.kind() {
            IntErrorKind::Empty => Err(NumberFault::Empty),
            IntErrorKind::PosOverflow => Err(NumberFault::TooLarge),
            _ => Err(NumberFault::InvalidDigit),
        },
    }
}

/// The number that `s` writes, where it writes one that a `u16` holds.
pub fn parse_u16(s: &str) -> (number: Option<u16>)
    ensures
        match number {
            Some(n) => number_up_to(s@, u16::MAX as nat) == Some(n as nat),
            None => number_up_to(s@, u16::MAX as nat) is None,
        },
{
    let chars = chars_of(s);
    let start: usize = if chars.len() > 0 && chars[0] == '+' {
        1
    } else {
        0
    };
    let ghost digits = without_plus(s@);
    assert(digits =~= chars@.skip(start as int));
    if start == chars.len() {
        return None;
    }
    let mut value: u32 = 0;
    let mut i: usize = start;
    while i < chars.len()
        invariant
            start <= i <= chars@.len(),
            digits == chars@.skip(start as int),
            digits == without_plus(s@),
            all_digits(digits.take(i - start)),
            value <= 65_536,
            value < 65_536 ==> value == digits_value(digits.take(i - start)),
            value == 65_536 ==> digits_value(digits.take(i - start)) >= 65_536,
        decreases chars@.len() - i,
    {
        let c = chars[i];
        assert(c == digits[i - start]);
        if c < '0' || '9' < c {
            return None;
        }
        assert(digits.take(i - start + 1).drop_last() =~= digits.take(i - start));
        let next: u32 = value * 10 + (c as u32 - 48);
        value = if value == 65_536 || next > 65_535 {
            65_536
        } else {
            next
        };
        i = i + 1;
    }
    assert(digits.take(i - start) =~= digits);
    if value < 65_536 {
        Some(value as u16)
    } else {
        None
    }
}

} // verus!
