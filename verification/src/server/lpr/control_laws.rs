//! What is read of a control file, line by line.

use super::control::control_of;
use crate::split::{
    find_char, find_char_place, lines, lines_from, trim_left, trim_right, trimmed, Fill,
};
use crate::text::{is_white_space, lossy_text, lossy_text_of_encoded};
use vstd::prelude::*;
use vstd::utf8::encode_utf8;

verus! {

/// Whether a text is nothing but white space.
pub open spec fn is_blank(text: Seq<char>) -> bool {
    forall|i: int| 0 <= i < text.len() ==> is_white_space(#[trigger] text[i])
}

/// Whether a text neither begins nor ends with white space.
pub open spec fn is_tight(text: Seq<char>) -> bool {
    text.len() > 0 ==> !is_white_space(text[0]) && !is_white_space(text.last())
}

/// Whether a line can end like this: with a line feed, with a carriage return
/// before it or not, or with the end of the file.
pub open spec fn is_ending(ending: Seq<char>) -> bool {
    ending == Seq::<char>::empty() || ending == seq!['\n'] || ending == seq!['\r', '\n']
}

/// White space around a text is trimmed off, and nothing else.
pub proof fn trimming_frees_a_text(before: Seq<char>, text: Seq<char>, after: Seq<char>)
    requires
        is_blank(before),
        is_blank(after),
        is_tight(text),
    ensures
        trimmed(before + text + after, Fill::Blank) == text,
    decreases before.len() + after.len(),
{
    let all = before + text + after;
    if before.len() > 0 {
        let rest = before.drop_first();
        assert(is_white_space(before[0]));
        assert forall|i: int| 0 <= i < rest.len() implies is_white_space(#[trigger] rest[i]) by {
            assert(rest[i] == before[i + 1]);
        }
        assert(all.drop_first() =~= rest + text + after);
        trimming_frees_a_text(rest, text, after);
    } else if text.len() > 0 {
        assert(all[0] == text[0]);
        assert(trim_left(all, Fill::Blank) == all);
        assert(all =~= text + after);
        trim_right_frees(text, after);
    } else {
        assert(all =~= after);
        trim_blank(after);
        assert(text =~= Seq::<char>::empty());
    }
}

/// White space behind a text is trimmed off.
proof fn trim_right_frees(text: Seq<char>, after: Seq<char>)
    requires
        is_blank(after),
        text.len() > 0,
        !is_white_space(text.last()),
    ensures
        trim_right(text + after, Fill::Blank) == text,
    decreases after.len(),
{
    if after.len() > 0 {
        let rest = after.drop_last();
        assert(is_white_space(after[after.len() - 1]));
        assert forall|i: int| 0 <= i < rest.len() implies is_white_space(#[trigger] rest[i]) by {
            assert(rest[i] == after[i]);
        }
        assert((text + after).drop_last() =~= text + rest);
        trim_right_frees(text, rest);
    } else {
        assert(text + after =~= text);
    }
}

/// Of nothing but white space nothing is left.
proof fn trim_blank(text: Seq<char>)
    requires
        is_blank(text),
    ensures
        trimmed(text, Fill::Blank) == Seq::<char>::empty(),
    decreases text.len(),
{
    if text.len() > 0 {
        let rest = text.drop_first();
        assert(is_white_space(text[0]));
        assert forall|i: int| 0 <= i < rest.len() implies is_white_space(#[trigger] rest[i]) by {
            assert(rest[i] == text[i + 1]);
        }
        trim_blank(rest);
    } else {
        assert(text =~= Seq::<char>::empty());
    }
}

/// Lines that are complete stay the same, whatever follows.
proof fn complete_lines_stay(before: Seq<char>, tail: Seq<char>, from: int)
    requires
        0 <= from <= before.len(),
        from < before.len() ==> before.last() == '\n',
    ensures
        lines_from(before + tail, from) == lines_from(before, from) + lines_from(
            before + tail,
            before.len() as int,
        ),
    decreases before.len() - from,
{
    let all = before + tail;
    if from < before.len() {
        find_char_place(before, '\n', from);
        find_char_place(all, '\n', from);
        let end = find_char(before, '\n', from);
        let same = find_char(all, '\n', from);
        assert(before[before.len() - 1] == '\n');
        assert(end < before.len());
        assert(all[end] == '\n');
        if same < end {
            assert(all[same] == before[same]);
        }
        assert(same == end);
        complete_lines_stay(before, tail, end + 1);
        let stop = if end > from && before[end - 1] == '\r' {
            end - 1
        } else {
            end
        };
        assert(all[end - 1] == before[end - 1] || end == from);
        assert(all.subrange(from, stop) =~= before.subrange(from, stop));
        let line = seq![before.subrange(from, stop)];
        assert(lines_from(all, from) == line + lines_from(all, end + 1));
        assert(lines_from(before, from) == line + lines_from(before, end + 1));
        assert(lines_from(all, from) =~= lines_from(before, from) + lines_from(
            all,
            before.len() as int,
        ));
    } else {
        assert(lines_from(before, from) =~= Seq::empty());
        assert(lines_from(all, from) =~= lines_from(before, from) + lines_from(
            all,
            before.len() as int,
        ));
    }
}

/// A line behind complete lines is one line more, however it ends.
pub proof fn line_is_one_more(before: Seq<char>, line: Seq<char>, ending: Seq<char>)
    requires
        before.len() > 0 ==> before.last() == '\n',
        line.len() > 0,
        !line.contains('\n'),
        line.last() != '\r',
        is_ending(ending),
    ensures
        lines(before + line + ending) == lines(before).push(line),
{
    let tail = line + ending;
    let all = before + tail;
    assert(before + line + ending =~= all);
    complete_lines_stay(before, tail, 0);
    let from = before.len() as int;
    find_char_place(all, '\n', from);
    let end = find_char(all, '\n', from);
    let stop = from + line.len();
    if end < stop {
        assert(all[end] == line[end - from]);
        assert(line.contains(line[end - from]));
    }
    assert(all.subrange(from, stop) =~= line);
    assert(all[stop - 1] == line.last());
    if ending.len() == 0 {
        assert(end == all.len());
    } else {
        assert(all.last() == '\n') by {
            assert(ending.last() == '\n');
        }
        assert(all[all.len() - 1] == '\n');
        if ending.len() == 2 {
            assert(all[stop] == '\r');
        }
        assert(end == all.len() - 1);
        assert(lines_from(all, end + 1) =~= Seq::empty());
    }
    assert(lines_from(all, from) =~= seq![line]);
    assert(lines(before) + seq![line] =~= lines(before).push(line));
}

/// What a control file says once a line is added: the letters H, P, J and N set
/// the host, the user, the name of the job and the name of the file to all that
/// stands behind the letter, without the white space around it, in place of what
/// was set before; any other letter sets nothing. The text is kept as it is.
pub proof fn control_line_sets_its_field(
    before: Seq<char>,
    code: char,
    front: Seq<char>,
    value: Seq<char>,
    back: Seq<char>,
    ending: Seq<char>,
)
    requires
        before.len() > 0 ==> before.last() == '\n',
        code != '\n',
        is_blank(front),
        is_blank(back),
        is_tight(value),
        !(seq![code] + front + value + back).contains('\n'),
        (seq![code] + front + value + back).last() != '\r',
        is_ending(ending),
    ensures
        ({
            let text = before + (seq![code] + front + value + back) + ending;
            let was = control_of(encode_utf8(before));
            let is = control_of(encode_utf8(text));
            &&& is.host == if code == 'H' {
                Some(value)
            } else {
                was.host
            }
            &&& is.user == if code == 'P' {
                Some(value)
            } else {
                was.user
            }
            &&& is.job_name == if code == 'J' {
                Some(value)
            } else {
                was.job_name
            }
            &&& is.source_name == if code == 'N' {
                Some(value)
            } else {
                was.source_name
            }
            &&& is.raw == text
        }),
{
    let line = seq![code] + front + value + back;
    let text = before + line + ending;
    lossy_text_of_encoded(before);
    lossy_text_of_encoded(text);
    line_is_one_more(before, line, ending);
    assert(line.drop_first() =~= front + value + back);
    trimming_frees_a_text(front, value, back);
    let all = lines(before).push(line);
    assert(all.drop_last() =~= lines(before));
    assert(all.last() == line && line[0] == code);
}

/// A control file of one line sets the field of its letter to the whole text
/// behind it, and no other field.
pub proof fn one_line_sets_one_field(code: char, value: Seq<char>)
    requires
        code != '\n' && code != '\r',
        !value.contains('\n'),
        is_tight(value),
    ensures
        ({
            let is = control_of(encode_utf8(seq![code] + value));
            &&& is.host == if code == 'H' {
                Some(value)
            } else {
                None
            }
            &&& is.user == if code == 'P' {
                Some(value)
            } else {
                None
            }
            &&& is.job_name == if code == 'J' {
                Some(value)
            } else {
                None
            }
            &&& is.source_name == if code == 'N' {
                Some(value)
            } else {
                None
            }
        }),
{
    let none = Seq::<char>::empty();
    let line = seq![code] + none + value + none;
    assert(line =~= seq![code] + value);
    assert(none + line + none =~= seq![code] + value);
    assert(!line.contains('\n')) by {
        if line.contains('\n') {
            let i = choose|i: int| 0 <= i < line.len() && line[i] == '\n';
            if i > 0 {
                assert(value[i - 1] == '\n');
            }
        }
    }
    assert(line.last() != '\r') by {
        if value.len() > 0 {
            assert(line.last() == value.last());
        }
    }
    control_line_sets_its_field(none, code, none, value, none, none);
    empty_control_says_nothing();
}

/// A control file without a line says nothing.
pub proof fn empty_control_says_nothing()
    ensures
        ({
            let is = control_of(encode_utf8(Seq::<char>::empty()));
            &&& is.host is None
            &&& is.user is None
            &&& is.job_name is None
            &&& is.source_name is None
            &&& is.raw == Seq::<char>::empty()
        }),
{
    lossy_text_of_encoded(Seq::<char>::empty());
    assert(lines(Seq::<char>::empty()).len() == 0);
}

/// Lines with nothing in them say nothing.
pub proof fn blank_lines_say_nothing(before: Seq<char>, ending: Seq<char>)
    requires
        before.len() > 0 ==> before.last() == '\n',
        ending == seq!['\n'] || ending == seq!['\r', '\n'],
    ensures
        ({
            let was = control_of(encode_utf8(before));
            let is = control_of(encode_utf8(before + ending));
            &&& is.host == was.host
            &&& is.user == was.user
            &&& is.job_name == was.job_name
            &&& is.source_name == was.source_name
            &&& is.raw == was.raw + ending
        }),
{
    let all = before + ending;
    let from = before.len() as int;
    lossy_text_of_encoded(before);
    lossy_text_of_encoded(all);
    complete_lines_stay(before, ending, 0);
    find_char_place(all, '\n', from);
    let end = find_char(all, '\n', from);
    assert(all[all.len() - 1] == ending.last());
    assert(all[from] == ending[0]);
    assert(end == all.len() - 1);
    assert(lines_from(all, end + 1) == Seq::<Seq<char>>::empty());
    let none = Seq::<char>::empty();
    assert(all.subrange(from, from) =~= none);
    assert(lines_from(all, from) =~= seq![none]);
    let more = lines(before).push(none);
    assert(lines(all) =~= more);
    assert(more.drop_last() =~= lines(before));
    assert(more.last().len() == 0);
}

/// A control file that is not UTF-8 says what its text says once the malformed
/// parts of it have been replaced.
pub proof fn malformed_controls_are_read(raw: Seq<u8>)
    ensures
        control_of(raw) == control_of(encode_utf8(lossy_text(raw))),
        control_of(raw).raw == lossy_text(raw),
{
    lossy_text_of_encoded(lossy_text(raw));
}

} // verus!
