//! What numbers in writing stand for, digit by digit.

use crate::notation::{
    decimal, decimal_is_digits, decimal_round_trip, digits_value, hex_byte, hex_bytes, number_up_to,
    signed_decimal, without_plus,
};
use vstd::prelude::*;

verus! {

/// The digit `d`, as it is written.
pub open spec fn written_digit(d: int) -> char {
    if d == 0 {
        '0'
    } else if d == 1 {
        '1'
    } else if d == 2 {
        '2'
    } else if d == 3 {
        '3'
    } else if d == 4 {
        '4'
    } else if d == 5 {
        '5'
    } else if d == 6 {
        '6'
    } else if d == 7 {
        '7'
    } else if d == 8 {
        '8'
    } else {
        '9'
    }
}

/// One more digit makes ten times as much and the digit.
pub proof fn digits_count_by_ten(n: nat, d: nat, text: Seq<char>)
    requires
        d < 10,
    ensures
        decimal(d) == seq![written_digit(d as int)],
        n > 0 ==> decimal(10 * n + d) == decimal(n).push(written_digit(d as int)),
        digits_value(Seq::empty()) == 0,
        digits_value(text.push(written_digit(d as int))) == 10 * digits_value(text) + d,
{
    let more = text.push(written_digit(d as int));
    assert(more.drop_last() =~= text);
    if n > 0 {
        assert((10 * n + d) / 10 == n);
        assert((10 * n + d) % 10 == d);
    }
}

/// A number in decimal begins with a zero only where it is zero.
pub proof fn no_zero_in_front(n: nat)
    ensures
        decimal(n).len() > 0,
        decimal(n)[0] == '0' <==> n == 0,
        n == 0 ==> decimal(n).len() == 1,
    decreases n,
{
    if n >= 10 {
        no_zero_in_front(n / 10);
    }
}

/// A number below zero is written with a minus sign in front of what is written
/// of the number above zero.
pub proof fn minus_stands_in_front(n: nat)
    ensures
        signed_decimal(n as int) == decimal(n),
        n > 0 ==> signed_decimal(-n) == seq!['-'] + decimal(n),
{
}

/// A number is read from its digits, from its digits behind a plus sign, and
/// from its digits behind zeros. One above the limit is not read.
pub proof fn numbers_are_read(n: nat, max: nat)
    ensures
        ({
            let read = if n <= max {
                Some(n)
            } else {
                None
            };
            &&& number_up_to(decimal(n), max) == read
            &&& number_up_to(seq!['+'] + decimal(n), max) == read
            &&& number_up_to(seq!['0'] + decimal(n), max) == read
        }),
{
    let digits = decimal(n);
    decimal_is_digits(n);
    decimal_round_trip(n);
    assert('0' <= digits[0]);
    assert(without_plus(digits) == digits);
    assert(without_plus(seq!['+'] + digits) =~= digits);
    zero_in_front(digits);
    let padded = seq!['0'] + digits;
    assert(without_plus(padded) == padded);
    assert forall|i: int| 0 <= i < padded.len() implies '0' <= #[trigger] padded[i] <= '9' by {
        if i > 0 {
            assert(padded[i] == digits[i - 1]);
        }
    }
}

/// A zero in front changes nothing.
proof fn zero_in_front(text: Seq<char>)
    ensures
        digits_value(seq!['0'] + text) == digits_value(text),
    decreases text.len(),
{
    let padded = seq!['0'] + text;
    if text.len() == 0 {
        reveal_with_fuel(digits_value, 2);
        assert(padded =~= seq!['0']);
    } else {
        zero_in_front(text.drop_last());
        assert(padded.drop_last() =~= seq!['0'] + text.drop_last());
    }
}

/// No number is read from a text that has no digit, or in which anything but a
/// digit stands; a plus sign may stand in front.
pub proof fn other_texts_are_no_numbers(text: Seq<char>, i: int, max: nat)
    requires
        0 <= i < text.len(),
        !('0' <= text[i] <= '9'),
        i > 0 || text[i] != '+' || text.len() == 1,
    ensures
        number_up_to(text, max) is None,
        number_up_to(Seq::empty(), max) is None,
{
    if text[0] == '+' {
        if text.len() > 1 {
            assert(text.drop_first()[i - 1] == text[i]);
        }
    }
}

/// What a hexadecimal digit counts.
pub open spec fn hex_worth(c: char) -> int {
    if '0' <= c <= '9' {
        c as int - '0' as int
    } else if 'a' <= c <= 'f' {
        10 + (c as int - 'a' as int)
    } else {
        -1
    }
}

/// A byte in hexadecimal is two digits, of which the first counts by sixteen.
pub proof fn hex_digits_count_by_sixteen(b: u8)
    ensures
        hex_byte(b).len() == 2,
        0 <= hex_worth(hex_byte(b)[0]) < 16,
        0 <= hex_worth(hex_byte(b)[1]) < 16,
        16 * hex_worth(hex_byte(b)[0]) + hex_worth(hex_byte(b)[1]) == b,
{
}

/// Bytes in hexadecimal are two digits each, in order.
pub proof fn hex_keeps_order(bytes: Seq<u8>, i: int)
    requires
        0 <= i < bytes.len(),
    ensures
        hex_bytes(bytes).len() == 2 * bytes.len(),
        0 <= hex_worth(hex_bytes(bytes)[2 * i]) < 16,
        0 <= hex_worth(hex_bytes(bytes)[2 * i + 1]) < 16,
        16 * hex_worth(hex_bytes(bytes)[2 * i]) + hex_worth(hex_bytes(bytes)[2 * i + 1])
            == bytes[i],
    decreases bytes.len(),
{
    let front = bytes.drop_last();
    hex_length(front);
    hex_digits_count_by_sixteen(bytes.last());
    if i < front.len() {
        hex_keeps_order(front, i);
        assert(hex_bytes(bytes)[2 * i] == hex_bytes(front)[2 * i]);
        assert(hex_bytes(bytes)[2 * i + 1] == hex_bytes(front)[2 * i + 1]);
    } else {
        assert(hex_bytes(bytes)[2 * i] == hex_byte(bytes.last())[0]);
        assert(hex_bytes(bytes)[2 * i + 1] == hex_byte(bytes.last())[1]);
    }
}

/// Bytes in hexadecimal are two digits each.
proof fn hex_length(bytes: Seq<u8>)
    ensures
        hex_bytes(bytes).len() == 2 * bytes.len(),
    decreases bytes.len(),
{
    if bytes.len() > 0 {
        hex_length(bytes.drop_last());
    }
}

} // verus!
