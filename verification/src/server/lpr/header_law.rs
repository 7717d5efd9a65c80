//! What is read back of a header that was written.

use super::error::LprError;
use super::header::{before_space, blames, header_of, line_body};
use crate::notation::{
    all_digits, decimal, decimal_is_digits, decimal_round_trip, digits_value, number_up_to,
    without_plus, writes_number, NumberFault,
};
use crate::split::{find_char, find_char_place, trimmed, Fill};
use crate::text::{lossy_text, lossy_text_of_encoded};
use vstd::prelude::*;
use vstd::utf8::{
    char_u32_cast, encode_scalar, encode_utf8, last_continuation_byte, leading_byte_width_1, leading_byte_width_2,
    leading_byte_width_3, leading_byte_width_4, second_last_continuation_byte,
    third_last_continuation_byte,
};

verus! {

/// The header of a file: its length, a space, its name.
pub open spec fn header_line(count: usize, name: Seq<char>) -> Seq<char> {
    decimal(count as nat).push(' ') + name
}

/// Of a header are read the length and the name, without the white space around
/// it.
pub proof fn header_line_read(count: usize, name: Seq<char>, fault: NumberFault)
    ensures
        header_of(header_line(count, name), fault) == Ok::<
            (usize, Seq<char>),
            LprError,
        >((count, trimmed(name, Fill::Blank))),
{
    let digits = decimal(count as nat);
    let line = header_line(count, name);
    decimal_is_digits(count as nat);
    decimal_round_trip(count as nat);
    find_char_place(line, ' ', 0);
    let place = find_char(line, ' ', 0);
    assert(line[digits.len() as int] == ' ');
    if place < digits.len() {
        assert(line[place] == digits[place]);
    }
    assert(place == digits.len());
    assert(before_space(line) =~= digits);
    assert('0' <= digits[0]);
    assert(line.subrange(place + 1, line.len() as int) =~= name);
}

/// A byte below 128 stands in the encoding of a character only where the
/// character is that one.
proof fn scalar_bytes(v: u32)
    ensures
        encode_scalar(v).len() > 0,
        forall|i: int|
            0 <= i < encode_scalar(v).len() && #[trigger] encode_scalar(v)[i] < 0x80
                ==> encode_scalar(v).len() == 1 && encode_scalar(v)[i] == v,
{
    assert(v <= 0x7f ==> leading_byte_width_1(v) == v) by (bit_vector);
    assert(leading_byte_width_2(v) >= 0x80) by (bit_vector);
    assert(leading_byte_width_3(v) >= 0x80) by (bit_vector);
    assert(leading_byte_width_4(v) >= 0x80) by (bit_vector);
    assert(last_continuation_byte(v) >= 0x80) by (bit_vector);
    assert(second_last_continuation_byte(v) >= 0x80) by (bit_vector);
    assert(third_last_continuation_byte(v) >= 0x80) by (bit_vector);
}

/// A byte below 128 stands in the encoding of a text only where the character
/// stands in the text, and last only where the character stands last.
proof fn text_bytes(text: Seq<char>, c: char)
    requires
        (c as u32) < 0x80,
    ensures
        encode_utf8(text).contains(c as u8) ==> text.contains(c),
        text.len() > 0 ==> encode_utf8(text).len() > 0,
        text.len() > 0 && encode_utf8(text).last() == c as u8 ==> text.last() == c,
    decreases text.len(),
{
    if text.len() > 0 {
        let rest = text.drop_first();
        let first = encode_scalar(text[0] as u32);
        scalar_bytes(text[0] as u32);
        text_bytes(rest, c);
        let bytes = encode_utf8(text);
        assert(bytes == first + encode_utf8(rest));
        if bytes.contains(c as u8) {
            let i = choose|i: int| 0 <= i < bytes.len() && bytes[i] == c as u8;
            if i < first.len() {
                assert(first[i] == c as u8);
                assert(text[0] as u32 == c as u32);
                char_u32_cast(text[0], c as u32);
                char_u32_cast(c, c as u32);
            } else {
                assert(encode_utf8(rest)[i - first.len()] == c as u8);
                let k = choose|k: int| 0 <= k < rest.len() && rest[k] == c;
                assert(text[k + 1] == c);
            }
        }
        if bytes.last() == c as u8 {
            if rest.len() == 0 {
                assert(bytes =~= first);
                assert(first[first.len() - 1] == c as u8);
                char_u32_cast(text[0], c as u32);
                char_u32_cast(c, c as u32);
            } else {
                assert(bytes.last() == encode_utf8(rest).last());
                assert(text.last() == rest.last());
            }
        }
    }
}

/// A text without a line feed, and without a carriage return at its end, is read
/// back when it is sent as a line.
pub proof fn line_round_trip(text: Seq<char>)
    requires
        !text.contains('\n'),
        text.len() > 0 ==> text.last() != '\r',
    ensures
        !encode_utf8(text).contains(10),
        lossy_text(line_body(encode_utf8(text).push(10))) == text,
{
    let bytes = encode_utf8(text);
    text_bytes(text, '\n');
    text_bytes(text, '\r');
    assert(bytes.push(10).drop_last() =~= bytes);
    lossy_text_of_encoded(text);
}

/// A header that is sent as a line is read back: the length, and the name
/// without the white space around it.
pub proof fn header_round_trip(count: usize, name: Seq<char>, fault: NumberFault)
    requires
        !name.contains('\n'),
        name.len() > 0 ==> name.last() != '\r',
    ensures
        ({
            let bytes = encode_utf8(header_line(count, name));
            &&& !bytes.contains(10)
            &&& header_of(lossy_text(line_body(bytes.push(10))), fault) == Ok::<
                (usize, Seq<char>),
                LprError,
            >((count, trimmed(name, Fill::Blank)))
        }),
{
    let line = header_line(count, name);
    decimal_is_digits(count as nat);
    assert(!line.contains('\n')) by {
        if line.contains('\n') {
            let i = choose|i: int| 0 <= i < line.len() && line[i] == '\n';
            let digits = decimal(count as nat);
            if i < digits.len() {
                assert(line[i] == digits[i]);
            } else if i > digits.len() {
                assert(line[i] == name[i - digits.len() - 1]);
            }
        }
    }
    assert(line.last() != '\r') by {
        if name.len() > 0 {
            assert(line.last() == name.last());
        }
    }
    line_round_trip(line);
    header_line_read(count, name, fault);
}

/// Ten to the power of `n`.
spec fn ten_to(n: nat) -> nat
    decreases n,
{
    if n == 0 {
        1
    } else {
        10 * ten_to((n - 1) as nat)
    }
}

/// So many digits write a number below that power of ten.
proof fn digits_bound(s: Seq<char>)
    requires
        all_digits(s),
    ensures
        digits_value(s) < ten_to(s.len()),
    decreases s.len(),
{
    if s.len() > 0 {
        let front = s.drop_last();
        assert forall|i: int| 0 <= i < front.len() implies '0' <= #[trigger] front[i] <= '9' by {
            assert(front[i] == s[i]);
        }
        assert('0' <= s[s.len() - 1] <= '9');
        digits_bound(front);
    }
}

/// A length of less than ten characters that cannot be read has one fault only:
/// it is empty, or it has a wrong digit.
pub proof fn short_length_has_one_fault(text: Seq<char>, fault: NumberFault)
    requires
        text.len() < 10,
        number_up_to(text, usize::MAX as nat) is None,
        blames(fault, text),
    ensures
        fault == if text.len() == 0 {
            NumberFault::Empty
        } else {
            NumberFault::InvalidDigit
        },
{
    if writes_number(text) {
        digits_bound(without_plus(text));
        reveal_with_fuel(ten_to, 10);
    }
    assert(decimal(usize::MAX as nat).len() >= 10) by {
        reveal_with_fuel(decimal, 11);
    }
}

} // verus!
