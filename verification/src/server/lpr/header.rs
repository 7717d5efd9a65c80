//! Lines, and the headers of files.

use super::error::LprError;
use crate::notation::{decimal, number_up_to, parse_usize, writes_number, NumberFault};
use crate::split::{find_char, find_in, trim_text, trimmed, Fill};
use crate::text::{chars_of, from_utf8_lossy, lossy_text, text_of};
use vstd::prelude::*;
use vstd::slice::slice_subrange;

verus! {

/// A line without its ending: one line feed, and one carriage return before it.
pub open spec fn line_body(bytes: Seq<u8>) -> Seq<u8> {
    let cut = if bytes.len() > 0 && bytes.last() == 10 {
        bytes.drop_last()
    } else {
        bytes
    };
    if cut.len() > 0 && cut.last() == 13 {
        cut.drop_last()
    } else {
        cut
    }
}

/// The text of a line, as it came from the connection. There is none where the
/// connection has ended.
pub fn read_line(bytes: &[u8]) -> (line: Result<String, LprError>)
    ensures
        bytes@.len() == 0 ==> line == Err::<String, LprError>(LprError::EndOfLine),
        bytes@.len() > 0 ==> (line matches Ok(text) && text@ == lossy_text(line_body(bytes@))),
{
    let mut end: usize = bytes.len();
    if end == 0 {
        return Err(LprError::EndOfLine);
    }
    if bytes[end - 1] == 10 {
        end = end - 1;
    }
    if end > 0 && bytes[end - 1] == 13 {
        end = end - 1;
    }
    let body = slice_subrange(bytes, 0, end);
    assert(body@ =~= line_body(bytes@));
    Ok(from_utf8_lossy(body))
}

/// What stands before the first space of a line.
pub open spec fn before_space(line: Seq<char>) -> Seq<char> {
    line.subrange(0, find_char(line, ' ', 0))
}

/// Whether `fault` is a fault that the text of a number can have: an empty one
/// is empty, one that writes a number is too large, and one that is too short to
/// be too large has a wrong digit.
pub open spec fn blames(fault: NumberFault, text: Seq<char>) -> bool {
    &&& fault is Empty <==> text.len() == 0
    &&& writes_number(text) ==> fault is TooLarge
    &&& 0 < text.len() < decimal(usize::MAX as nat).len() && !writes_number(text)
        ==> fault is InvalidDigit
}

/// A fault that the text of a number can have.
pub open spec fn some_fault(text: Seq<char>) -> NumberFault {
    if text.len() == 0 {
        NumberFault::Empty
    } else if writes_number(text) {
        NumberFault::TooLarge
    } else {
        NumberFault::InvalidDigit
    }
}

/// What the header of a file says: its length and its name. Where the length
/// cannot be read, `fault` is why.
pub open spec fn header_of(line: Seq<char>, fault: NumberFault) -> Result<
    (usize, Seq<char>),
    LprError,
> {
    match number_up_to(before_space(line), usize::MAX as nat) {
        None => Err(LprError::InvalidLength(fault)),
        Some(count) => if find_char(line, ' ', 0) >= line.len() {
            Err(LprError::MissingName)
        } else {
            Ok(
                (
                    count as usize,
                    trimmed(
                        line.subrange(find_char(line, ' ', 0) + 1, line.len() as int),
                        Fill::Blank,
                    ),
                ),
            )
        },
    }
}

/// A header as it was read.
pub open spec fn header_view(header: Result<(usize, String), LprError>) -> Result<
    (usize, Seq<char>),
    LprError,
> {
    match header {
        Ok((count, name)) => Ok((count, name@)),
        Err(error) => Err(error),
    }
}

/// Reads the header of a file: its length, a space, its name.
pub fn parse_file_header(line: &str) -> (header: Result<(usize, String), LprError>)
    ensures
        exists|fault: NumberFault|
            blames(fault, before_space(line@)) && header_view(header) == #[trigger] header_of(
                line@,
                fault,
            ),
{
    let chars = chars_of(line);
    let space = find_in(chars.as_slice(), ' ', 0);
    let first = text_of(chars.as_slice(), 0, space);
    let ghost fault = some_fault(first@);
    match parse_usize(first.as_str()) {
        Ok(count) => {
            let header = if space < chars.len() {
                Ok((count, trim_text(chars.as_slice(), space + 1)))
            } else {
                Err(LprError::MissingName)
            };
            assert(blames(fault, before_space(line@)) && header_view(header) == header_of(
                line@,
                fault,
            ));
            header
        },
        Err(fault) => {
            assert(header_of(line@, fault) == Err::<(usize, Seq<char>), LprError>(
                LprError::InvalidLength(fault),
            ));
            Err(LprError::InvalidLength(fault))
        },
    }
}

} // verus!
