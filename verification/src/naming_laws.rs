//! How a job's files are called, for every job.

use crate::clock::{rfc3339_text, stamp_text, Moment};
use crate::notation::{decimal, zero_padded};
use crate::split::{trim_left, trimmed, Fill};
use crate::storage::{extension, file_char, sanitized, MetadataView, SavePlan};
use crate::text::{ascii_lower, ascii_lower_text, unicode_alphanumeric, upper_text};
use vstd::prelude::*;
use vstd::utf8::is_ascii_chars;

verus! {

// The description -----------------------------------------------------------

/// All that is known of a job is kept as it was handed in; only the moment, the
/// size and the name of the data file are added.
pub proof fn description_is_kept(
    plan: SavePlan,
    data: Seq<u8>,
    metadata: MetadataView,
    sequence: u64,
    now: Moment,
)
    requires
        plan.fits(data, metadata, sequence, now),
    ensures
        plan.metadata@.protocol == metadata.protocol,
        plan.metadata@.source == metadata.source,
        plan.metadata@.queue == metadata.queue,
        plan.metadata@.user == metadata.user,
        plan.metadata@.job_name == metadata.job_name,
        plan.metadata@.document_format == metadata.document_format,
        plan.metadata@.protocol_file_name == metadata.protocol_file_name,
        plan.metadata@.attributes == metadata.attributes,
        plan.metadata@.received_at == rfc3339_text(now.seconds, now.nanos, now.offset),
        plan.metadata@.bytes == data.len(),
        plan.metadata@.raw_file_name == Some(plan.raw_file_name@),
{
}

/// Both files of a job are called by the moment, the protocol in capitals, the
/// number in six digits or more, and the name of the job, where it has one; the
/// data file has the extension that its content calls for.
pub proof fn files_are_called_by_their_job(
    plan: SavePlan,
    data: Seq<u8>,
    metadata: MetadataView,
    sequence: u64,
    now: Moment,
)
    requires
        plan.fits(data, metadata, sequence, now),
    ensures
        ({
            let stamp = stamp_text(now.seconds, now.nanos, now.offset, "%Y%m%d_%H%M%S_%3f"@);
            let number = zero_padded(sequence as nat, 6);
            let name = match metadata.job_name {
                Some(name) => sanitized(name),
                None => "print-job"@,
            };
            let base = stamp + "_"@ + sanitized(upper_text(metadata.protocol)) + "_"@ + number
                + "_"@ + name;
            &&& plan.raw_file_name@ == base + "."@ + extension(data, metadata.document_format)
            &&& plan.metadata_file_name@ == base + ".json"@
        }),
{
    reveal_strlit("print-job");
    let fixed = "print-job"@;
    assert(fixed =~= seq!['p', 'r', 'i', 'n', 't', '-', 'j', 'o', 'b']);
    crate::storage_laws::fit_components_stay(fixed);
}

/// A number below a million takes six characters, with zeros in front; a larger
/// one is written as it is.
pub proof fn numbers_take_six_digits(n: nat)
    ensures
        n < 1_000_000 ==> zero_padded(n, 6).len() == 6,
        n >= 1_000_000 ==> zero_padded(n, 6) == decimal(n),
{
    reveal_with_fuel(decimal, 8);
}

// The parts of a name -------------------------------------------------------

/// The ASCII letters and digits.
pub open spec fn is_plain_alphanumeric(c: char) -> bool {
    'a' <= c <= 'z' || 'A' <= c <= 'Z' || '0' <= c <= '9'
}

/// Letters and digits: in ASCII those of English, and beyond it those of Unicode.
pub open spec fn is_word_char(c: char) -> bool {
    if (c as u32) < 0x80 {
        is_plain_alphanumeric(c)
    } else {
        unicode_alphanumeric(c)
    }
}

/// Whether `d` stands in a file name for `c`: letters, digits, hyphens,
/// underscores and full stops for themselves, every other character as an
/// underscore.
pub open spec fn stands_for(d: char, c: char) -> bool {
    if is_word_char(c) || c == '-' || c == '_' || c == '.' {
        d == c
    } else {
        d == '_'
    }
}

/// Whether a character is dropped at the ends of a name: it is neither a letter
/// nor a digit nor a hyphen.
pub open spec fn is_dropped(c: char) -> bool {
    !is_word_char(c) && c != '-'
}

/// A text that neither begins nor ends with what is dropped keeps its first eighty
/// characters, each for itself or as an underscore.
pub proof fn names_are_kept_in_place(value: Seq<char>)
    requires
        value.len() > 0,
        !is_dropped(value[0]),
        !is_dropped(value.last()),
    ensures
        sanitized(value).len() == if value.len() > 80 {
            80
        } else {
            value.len() as int
        },
        forall|i: int|
            0 <= i < sanitized(value).len() ==> stands_for(#[trigger] sanitized(value)[i], value[i]),
{
    let mapped = value.map_values(|c: char| file_char(c));
    assert(mapped[0] == file_char(value[0]));
    assert(mapped.last() == file_char(value.last()));
    assert(trimmed(mapped, Fill::Mark) == mapped);
    assert forall|i: int| 0 <= i < value.len() implies stands_for(
        #[trigger] mapped[i],
        value[i],
    ) by {}
}

/// What is dropped at the ends of a name does not matter.
pub proof fn ends_do_not_matter(value: Seq<char>, c: char)
    requires
        is_dropped(c),
    ensures
        sanitized(seq![c] + value) == sanitized(value),
        sanitized(value.push(c)) == sanitized(value),
{
    let f = |c: char| file_char(c);
    let mapped = value.map_values(f);
    let front = (seq![c] + value).map_values(f);
    assert(front[0] == file_char(c));
    assert(front.drop_first() =~= mapped);
    assert(trimmed(front, Fill::Mark) == trimmed(mapped, Fill::Mark));
    let back = value.push(c).map_values(f);
    assert(back =~= mapped.push(file_char(c)));
    trimmed_push(mapped, file_char(c));
}

/// A mark at the end of a text is trimmed off with the others.
proof fn trimmed_push(s: Seq<char>, mark: char)
    requires
        Fill::Mark.covers(mark),
    ensures
        trimmed(s.push(mark), Fill::Mark) == trimmed(s, Fill::Mark),
    decreases s.len(),
{
    if s.len() > 0 && Fill::Mark.covers(s[0]) {
        assert(s.push(mark).drop_first() =~= s.drop_first().push(mark));
        trimmed_push(s.drop_first(), mark);
    } else if s.len() > 0 {
        assert(trim_left(s.push(mark), Fill::Mark) == s.push(mark));
        assert(s.push(mark).drop_last() =~= s);
    } else {
        assert(s.push(mark).drop_first() =~= s);
        assert(trim_left(s.push(mark), Fill::Mark) =~= s) by {
            reveal_with_fuel(trim_left, 2);
        }
    }
}

/// A name of which nothing is left is replaced.
pub proof fn nothing_left_is_replaced(value: Seq<char>)
    requires
        forall|i: int| 0 <= i < value.len() ==> is_dropped(#[trigger] value[i]),
    ensures
        sanitized(value) == "print-job"@,
    decreases value.len(),
{
    if value.len() > 0 {
        let rest = value.drop_first();
        assert(is_dropped(value[0]));
        assert forall|i: int| 0 <= i < rest.len() implies is_dropped(#[trigger] rest[i]) by {
            assert(rest[i] == value[i + 1]);
        }
        nothing_left_is_replaced(rest);
        ends_do_not_matter(rest, value[0]);
        assert(seq![value[0]] + rest =~= value);
    } else {
        assert(value.map_values(|c: char| file_char(c)).len() == 0);
    }
}

/// The protocol stands in a file name in capitals: an ASCII text has its small
/// letters, and nothing else, replaced by the capitals.
pub proof fn capitals_replace_small_letters(text: Seq<char>)
    requires
        is_ascii_chars(text),
    ensures
        upper_text(text).len() == text.len(),
        forall|i: int|
            0 <= i < text.len() ==> #[trigger] upper_text(text)[i] == if 'a' <= text[i] <= 'z' {
                (text[i] as u32 - 32) as char
            } else {
                text[i]
            },
{
}

// Extensions ----------------------------------------------------------------

/// Whether a text is the same as a text in small letters, but for capitals.
pub open spec fn is_in_any_case(text: Seq<char>, small: Seq<char>) -> bool {
    &&& text.len() == small.len()
    &&& forall|i: int|
        0 <= i < text.len() ==> #[trigger] text[i] == small[i] || 'a' <= small[i] <= 'z'
            && text[i] as u32 + 32 == small[i] as u32
}

/// Whether a text has no capitals.
spec fn no_capitals(text: Seq<char>) -> bool {
    forall|i: int| 0 <= i < text.len() ==> !('A' <= #[trigger] text[i] <= 'Z')
}

/// Making capitals small gives a text in small letters from any case of it, and
/// from nothing else.
proof fn lowered(text: Seq<char>, small: Seq<char>)
    requires
        no_capitals(small),
    ensures
        is_in_any_case(text, small) <==> ascii_lower_text(text) == small,
{
    let lower = ascii_lower_text(text);
    if is_in_any_case(text, small) {
        assert forall|i: int| 0 <= i < text.len() implies lower[i] == small[i] by {
            assert(lower[i] == ascii_lower(text[i]));
            assert(!('A' <= small[i] <= 'Z'));
        }
        assert(lower =~= small);
    }
    if lower == small {
        assert forall|i: int| 0 <= i < text.len() implies #[trigger] text[i] == small[i] || 'a'
            <= small[i] <= 'z' && text[i] as u32 + 32 == small[i] as u32 by {
            assert(lower[i] == ascii_lower(text[i]));
        }
    }
}

/// The document formats that are known are written in small letters.
proof fn formats_are_small()
    ensures
        no_capitals("application/pdf"@),
        no_capitals("application/postscript"@),
        no_capitals("application/vnd.hp-pcl"@),
        no_capitals("application/pcl"@),
        no_capitals("image/pwg-raster"@),
        no_capitals("image/urf"@),
        no_capitals("image/jpeg"@),
        no_capitals("image/png"@),
        no_capitals("text/plain"@),
{
    reveal_strlit("application/pdf");
    assert("application/pdf"@ =~= seq!['a', 'p', 'p', 'l', 'i', 'c', 'a', 't', 'i', 'o', 'n', '/', 'p', 'd', 'f']);
    reveal_strlit("application/postscript");
    assert("application/postscript"@ =~= seq!['a', 'p', 'p', 'l', 'i', 'c', 'a', 't', 'i', 'o', 'n', '/', 'p', 'o', 's', 't', 's', 'c', 'r', 'i', 'p', 't']);
    reveal_strlit("application/vnd.hp-pcl");
    assert("application/vnd.hp-pcl"@ =~= seq!['a', 'p', 'p', 'l', 'i', 'c', 'a', 't', 'i', 'o', 'n', '/', 'v', 'n', 'd', '.', 'h', 'p', '-', 'p', 'c', 'l']);
    reveal_strlit("application/pcl");
    assert("application/pcl"@ =~= seq!['a', 'p', 'p', 'l', 'i', 'c', 'a', 't', 'i', 'o', 'n', '/', 'p', 'c', 'l']);
    reveal_strlit("image/pwg-raster");
    assert("image/pwg-raster"@ =~= seq!['i', 'm', 'a', 'g', 'e', '/', 'p', 'w', 'g', '-', 'r', 'a', 's', 't', 'e', 'r']);
    reveal_strlit("image/urf");
    assert("image/urf"@ =~= seq!['i', 'm', 'a', 'g', 'e', '/', 'u', 'r', 'f']);
    reveal_strlit("image/jpeg");
    assert("image/jpeg"@ =~= seq!['i', 'm', 'a', 'g', 'e', '/', 'j', 'p', 'e', 'g']);
    reveal_strlit("image/png");
    assert("image/png"@ =~= seq!['i', 'm', 'a', 'g', 'e', '/', 'p', 'n', 'g']);
    reveal_strlit("text/plain");
    assert("text/plain"@ =~= seq!['t', 'e', 'x', 't', '/', 'p', 'l', 'a', 'i', 'n']);
}

/// A document format that is known, in any case, decides the extension, whatever
/// the data.
pub proof fn known_formats_decide(data: Seq<u8>, format: Seq<char>)
    ensures
        is_in_any_case(format, "application/pdf"@) ==> extension(data, Some(format)) == "pdf"@,
        is_in_any_case(format, "application/postscript"@) ==> extension(data, Some(format)) == "ps"@,
        is_in_any_case(format, "application/vnd.hp-pcl"@) ==> extension(data, Some(format)) == "pcl"@,
        is_in_any_case(format, "application/pcl"@) ==> extension(data, Some(format)) == "pcl"@,
        is_in_any_case(format, "image/pwg-raster"@) ==> extension(data, Some(format)) == "pwg"@,
        is_in_any_case(format, "image/urf"@) ==> extension(data, Some(format)) == "urf"@,
        is_in_any_case(format, "image/jpeg"@) ==> extension(data, Some(format)) == "jpg"@,
        is_in_any_case(format, "image/png"@) ==> extension(data, Some(format)) == "png"@,
        is_in_any_case(format, "text/plain"@) ==> extension(data, Some(format)) == "txt"@,
{
    formats_are_small();
    reveal_strlit("application/pdf");
    lowered(format, "application/pdf"@);
    assert("application/pdf"@.len() == 15);
    reveal_strlit("application/postscript");
    lowered(format, "application/postscript"@);
    assert("application/postscript"@.len() == 22);
    reveal_strlit("application/vnd.hp-pcl");
    lowered(format, "application/vnd.hp-pcl"@);
    assert("application/vnd.hp-pcl"@.len() == 22);
    reveal_strlit("application/pcl");
    lowered(format, "application/pcl"@);
    assert("application/pcl"@.len() == 15);
    reveal_strlit("image/pwg-raster");
    lowered(format, "image/pwg-raster"@);
    assert("image/pwg-raster"@.len() == 16);
    reveal_strlit("image/urf");
    lowered(format, "image/urf"@);
    assert("image/urf"@.len() == 9);
    reveal_strlit("image/jpeg");
    lowered(format, "image/jpeg"@);
    assert("image/jpeg"@.len() == 10);
    reveal_strlit("image/png");
    lowered(format, "image/png"@);
    assert("image/png"@.len() == 9);
    reveal_strlit("text/plain");
    lowered(format, "text/plain"@);
    assert("text/plain"@.len() == 10);
    assert("application/pdf"@[13] != "application/pcl"@[13]);
    assert("application/postscript"@[12] != "application/vnd.hp-pcl"@[12]);
    assert("image/urf"@[6] != "image/png"@[6]);
    assert("image/jpeg"@[0] != "text/plain"@[0]);
}

/// A document format that is not known in any case does not count.
pub proof fn unknown_formats_do_not_count(data: Seq<u8>, format: Seq<char>)
    requires
        !is_in_any_case(format, "application/pdf"@),
        !is_in_any_case(format, "application/postscript"@),
        !is_in_any_case(format, "application/vnd.hp-pcl"@),
        !is_in_any_case(format, "application/pcl"@),
        !is_in_any_case(format, "image/pwg-raster"@),
        !is_in_any_case(format, "image/urf"@),
        !is_in_any_case(format, "image/jpeg"@),
        !is_in_any_case(format, "image/png"@),
        !is_in_any_case(format, "text/plain"@),
    ensures
        extension(data, Some(format)) == extension(data, None),
{
    formats_are_small();
    lowered(format, "application/pdf"@);
    lowered(format, "application/postscript"@);
    lowered(format, "application/vnd.hp-pcl"@);
    lowered(format, "application/pcl"@);
    lowered(format, "image/pwg-raster"@);
    lowered(format, "image/urf"@);
    lowered(format, "image/jpeg"@);
    lowered(format, "image/png"@);
    lowered(format, "text/plain"@);
}

/// Without a document format, data that begins with a known signature has the
/// extension that goes with it, whatever follows.
pub proof fn signatures_decide(rest: Seq<u8>)
    ensures
        extension([0x25u8, 0x50, 0x44, 0x46, 0x2d]@ + rest, None) == "pdf"@,
        extension([0x25u8, 0x21, 0x50, 0x53]@ + rest, None) == "ps"@,
        extension([0xffu8, 0xd8, 0xff]@ + rest, None) == "jpg"@,
        extension([0x89u8, 0x50, 0x4e, 0x47, 0x0d, 0x0a, 0x1a, 0x0a]@ + rest, None) == "png"@,
        extension([0x52u8, 0x61, 0x53, 0x32]@ + rest, None) == "pwg"@,
        extension([0x52u8, 0x61, 0x53, 0x33]@ + rest, None) == "pwg"@,
        extension([0x55u8, 0x4e, 0x49, 0x52, 0x41, 0x53, 0x54]@ + rest, None) == "urf"@,
        extension([0x1bu8, 0x25, 0x2d, 0x31, 0x32, 0x33, 0x34, 0x35, 0x58]@ + rest, None) == "pcl"@,
{
    let d0 = [0x25u8, 0x50, 0x44, 0x46, 0x2d]@ + rest;
    assert([0x25u8, 0x50, 0x44, 0x46, 0x2d]@.is_prefix_of(d0)) by {
        assert(d0.subrange(0, 5) =~= [0x25u8, 0x50, 0x44, 0x46, 0x2d]@);
    }
    let d1 = [0x25u8, 0x21, 0x50, 0x53]@ + rest;
    assert([0x25u8, 0x21, 0x50, 0x53]@.is_prefix_of(d1)) by {
        assert(d1.subrange(0, 4) =~= [0x25u8, 0x21, 0x50, 0x53]@);
    }
    not_prefix([0x25u8, 0x50, 0x44, 0x46, 0x2d]@, d1, 1);
    let d2 = [0xffu8, 0xd8, 0xff]@ + rest;
    assert([0xffu8, 0xd8, 0xff]@.is_prefix_of(d2)) by {
        assert(d2.subrange(0, 3) =~= [0xffu8, 0xd8, 0xff]@);
    }
    not_prefix([0x25u8, 0x50, 0x44, 0x46, 0x2d]@, d2, 0);
    not_prefix([0x25u8, 0x21, 0x50, 0x53]@, d2, 0);
    let d3 = [0x89u8, 0x50, 0x4e, 0x47, 0x0d, 0x0a, 0x1a, 0x0a]@ + rest;
    assert([0x89u8, 0x50, 0x4e, 0x47, 0x0d, 0x0a, 0x1a, 0x0a]@.is_prefix_of(d3)) by {
        assert(d3.subrange(0, 8) =~= [0x89u8, 0x50, 0x4e, 0x47, 0x0d, 0x0a, 0x1a, 0x0a]@);
    }
    not_prefix([0x25u8, 0x50, 0x44, 0x46, 0x2d]@, d3, 0);
    not_prefix([0x25u8, 0x21, 0x50, 0x53]@, d3, 0);
    not_prefix([0xffu8, 0xd8, 0xff]@, d3, 0);
    let d4 = [0x52u8, 0x61, 0x53, 0x32]@ + rest;
    assert([0x52u8, 0x61, 0x53, 0x32]@.is_prefix_of(d4)) by {
        assert(d4.subrange(0, 4) =~= [0x52u8, 0x61, 0x53, 0x32]@);
    }
    not_prefix([0x25u8, 0x50, 0x44, 0x46, 0x2d]@, d4, 0);
    not_prefix([0x25u8, 0x21, 0x50, 0x53]@, d4, 0);
    not_prefix([0xffu8, 0xd8, 0xff]@, d4, 0);
    not_prefix([0x89u8, 0x50, 0x4e, 0x47, 0x0d, 0x0a, 0x1a, 0x0a]@, d4, 0);
    let d5 = [0x52u8, 0x61, 0x53, 0x33]@ + rest;
    assert([0x52u8, 0x61, 0x53, 0x33]@.is_prefix_of(d5)) by {
        assert(d5.subrange(0, 4) =~= [0x52u8, 0x61, 0x53, 0x33]@);
    }
    not_prefix([0x25u8, 0x50, 0x44, 0x46, 0x2d]@, d5, 0);
    not_prefix([0x25u8, 0x21, 0x50, 0x53]@, d5, 0);
    not_prefix([0xffu8, 0xd8, 0xff]@, d5, 0);
    not_prefix([0x89u8, 0x50, 0x4e, 0x47, 0x0d, 0x0a, 0x1a, 0x0a]@, d5, 0);
    not_prefix([0x52u8, 0x61, 0x53, 0x32]@, d5, 3);
    let d6 = [0x55u8, 0x4e, 0x49, 0x52, 0x41, 0x53, 0x54]@ + rest;
    assert([0x55u8, 0x4e, 0x49, 0x52, 0x41, 0x53, 0x54]@.is_prefix_of(d6)) by {
        assert(d6.subrange(0, 7) =~= [0x55u8, 0x4e, 0x49, 0x52, 0x41, 0x53, 0x54]@);
    }
    not_prefix([0x25u8, 0x50, 0x44, 0x46, 0x2d]@, d6, 0);
    not_prefix([0x25u8, 0x21, 0x50, 0x53]@, d6, 0);
    not_prefix([0xffu8, 0xd8, 0xff]@, d6, 0);
    not_prefix([0x89u8, 0x50, 0x4e, 0x47, 0x0d, 0x0a, 0x1a, 0x0a]@, d6, 0);
    not_prefix([0x52u8, 0x61, 0x53, 0x32]@, d6, 0);
    not_prefix([0x52u8, 0x61, 0x53, 0x33]@, d6, 0);
    let d7 = [0x1bu8, 0x25, 0x2d, 0x31, 0x32, 0x33, 0x34, 0x35, 0x58]@ + rest;
    assert([0x1bu8, 0x25, 0x2d, 0x31, 0x32, 0x33, 0x34, 0x35, 0x58]@.is_prefix_of(d7)) by {
        assert(d7.subrange(0, 9) =~= [0x1bu8, 0x25, 0x2d, 0x31, 0x32, 0x33, 0x34, 0x35, 0x58]@);
    }
    not_prefix([0x25u8, 0x50, 0x44, 0x46, 0x2d]@, d7, 0);
    not_prefix([0x25u8, 0x21, 0x50, 0x53]@, d7, 0);
    not_prefix([0xffu8, 0xd8, 0xff]@, d7, 0);
    not_prefix([0x89u8, 0x50, 0x4e, 0x47, 0x0d, 0x0a, 0x1a, 0x0a]@, d7, 0);
    not_prefix([0x52u8, 0x61, 0x53, 0x32]@, d7, 0);
    not_prefix([0x52u8, 0x61, 0x53, 0x33]@, d7, 0);
    not_prefix([0x55u8, 0x4e, 0x49, 0x52, 0x41, 0x53, 0x54]@, d7, 0);
}

/// A text that differs at one place does not begin with another.
proof fn not_prefix(signature: Seq<u8>, data: Seq<u8>, k: int)
    requires
        0 <= k < signature.len(),
        k < data.len(),
        signature[k] != data[k],
    ensures
        !signature.is_prefix_of(data),
{
    if signature.is_prefix_of(data) {
        assert(data.subrange(0, signature.len() as int)[k] == data[k]);
    }
}

/// Whether `data` begins with `signature`.
pub open spec fn begins_with(data: Seq<u8>, signature: Seq<u8>) -> bool {
    &&& data.len() >= signature.len()
    &&& forall|i: int| 0 <= i < signature.len() ==> #[trigger] data[i] == signature[i]
}

/// Without a document format, data that begins with no known signature has the
/// extension for anything else.
pub proof fn anything_else_is_prn(data: Seq<u8>)
    requires
        !begins_with(data, [0x25u8, 0x50, 0x44, 0x46, 0x2d]@),
        !begins_with(data, [0x25u8, 0x21, 0x50, 0x53]@),
        !begins_with(data, [0xffu8, 0xd8, 0xff]@),
        !begins_with(data, [0x89u8, 0x50, 0x4e, 0x47, 0x0d, 0x0a, 0x1a, 0x0a]@),
        !begins_with(data, [0x52u8, 0x61, 0x53, 0x32]@),
        !begins_with(data, [0x52u8, 0x61, 0x53, 0x33]@),
        !begins_with(data, [0x55u8, 0x4e, 0x49, 0x52, 0x41, 0x53, 0x54]@),
        !begins_with(data, [0x1bu8, 0x25, 0x2d, 0x31, 0x32, 0x33, 0x34, 0x35, 0x58]@),
    ensures
        extension(data, None) == "prn"@,
{
    begins_as_prefix(data, [0x25u8, 0x50, 0x44, 0x46, 0x2d]@);
    begins_as_prefix(data, [0x25u8, 0x21, 0x50, 0x53]@);
    begins_as_prefix(data, [0xffu8, 0xd8, 0xff]@);
    begins_as_prefix(data, [0x89u8, 0x50, 0x4e, 0x47, 0x0d, 0x0a, 0x1a, 0x0a]@);
    begins_as_prefix(data, [0x52u8, 0x61, 0x53, 0x32]@);
    begins_as_prefix(data, [0x52u8, 0x61, 0x53, 0x33]@);
    begins_as_prefix(data, [0x55u8, 0x4e, 0x49, 0x52, 0x41, 0x53, 0x54]@);
    begins_as_prefix(data, [0x1bu8, 0x25, 0x2d, 0x31, 0x32, 0x33, 0x34, 0x35, 0x58]@);
}

/// Beginning with a signature and having it for a prefix are the same.
proof fn begins_as_prefix(data: Seq<u8>, signature: Seq<u8>)
    ensures
        begins_with(data, signature) <==> signature.is_prefix_of(data),
{
    if begins_with(data, signature) {
        assert(signature =~= data.subrange(0, signature.len() as int));
    }
    if signature.is_prefix_of(data) {
        assert forall|i: int| 0 <= i < signature.len() implies #[trigger] data[i]
            == signature[i] by {
            assert(data.subrange(0, signature.len() as int)[i] == data[i]);
        }
    }
}

} // verus!
