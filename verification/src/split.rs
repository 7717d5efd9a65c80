//! Cutting texts: trimming both ends, splitting at a space, splitting into
//! lines.

use crate::text::{is_white_space, text_of};
use vstd::prelude::*;

verus! {

/// The characters that trimming takes off the ends of a text.
#[derive(Clone, Copy, Debug, PartialEq, Eq, Structural)]
pub enum Fill {
    /// White space.
    Blank,
    /// Underscores and full stops.
    Mark,
}

impl Fill {
    /// Whether trimming takes `c` off.
    pub open spec fn covers(self, c: char) -> bool {
        match self {
            Fill::Blank => is_white_space(c),
            Fill::Mark => c == '_' || c == '.',
        }
    }

    /// Whether trimming takes `c` off.
    pub fn holds(self, c: char) -> (yes: bool)
        ensures
            yes == self.covers(c),
    {
        match self {
            Fill::Blank => c.is_whitespace(),
            Fill::Mark => c == '_' || c == '.',
        }
    }
}

/// `s` without the longest run of `fill` at its start.
pub open spec fn trim_left(s: Seq<char>, fill: Fill) -> Seq<char>
    decreases s.len(),
{
    if s.len() > 0 && fill.covers(s[0]) {
        trim_left(s.drop_first(), fill)
    } else {
        s
    }
}

/// `s` without the longest run of `fill` at its end.
pub open spec fn trim_right(s: Seq<char>, fill: Fill) -> Seq<char>
    decreases s.len(),
{
    if s.len() > 0 && fill.covers(s.last()) {
        trim_right(s.drop_last(), fill)
    } else {
        s
    }
}

/// `s` without the longest runs of `fill` at its ends.
pub open spec fn trimmed(s: Seq<char>, fill: Fill) -> Seq<char> {
    trim_right(trim_left(s, fill), fill)
}

/// What is left once `chars[from..]` has been trimmed, as a range of `chars`.
pub fn trim_range(chars: &[char], from: usize, fill: Fill) -> (range: (usize, usize))
    requires
        from <= chars@.len(),
    ensures
        from <= range.0 <= range.1 <= chars@.len(),
        chars@.subrange(range.0 as int, range.1 as int) == trimmed(
            chars@.subrange(from as int, chars@.len() as int),
            fill,
        ),
{
    let n = chars.len();
    let ghost whole = chars@.subrange(from as int, n as int);
    let mut start: usize = from;
    while start < n && fill.holds(chars[start])
        invariant
            from <= start <= n,
            n == chars@.len(),
            whole == chars@.subrange(from as int, n as int),
            trim_left(chars@.subrange(start as int, n as int), fill) == trim_left(whole, fill),
        decreases n - start,
    {
        start = start + 1;
        assert(chars@.subrange(start - 1, n as int).drop_first() =~= chars@.subrange(
            start as int,
            n as int,
        ));
    }
    let ghost left = chars@.subrange(start as int, n as int);
    assert(left == trim_left(whole, fill));
    let mut end: usize = n;
    while end > start && fill.holds(chars[end - 1])
        invariant
            start <= end <= n,
            n == chars@.len(),
            trim_right(chars@.subrange(start as int, end as int), fill) == trim_right(left, fill),
        decreases end,
    {
        end = end - 1;
        assert(chars@.subrange(start as int, end + 1).drop_last() =~= chars@.subrange(
            start as int,
            end as int,
        ));
    }
    (start, end)
}

/// `s` without the white space at its ends, from its character `from` on.
pub fn trim_text(chars: &[char], from: usize) -> (text: String)
    requires
        from <= chars@.len(),
    ensures
        text@ == trimmed(chars@.subrange(from as int, chars@.len() as int), Fill::Blank),
{
    let (start, end) = trim_range(chars, from, Fill::Blank);
    text_of(chars, start, end)
}

/// The place of the first `c` in `s` from `from` on; the length of `s` where
/// there is none.
pub open spec fn find_char(s: Seq<char>, c: char, from: int) -> int
    decreases s.len() - from,
{
    if from >= s.len() {
        s.len() as int
    } else if s[from] == c {
        from
    } else {
        find_char(s, c, from + 1)
    }
}

/// `find_char` gives a place in the text: no `c` stands before it, and one
/// stands at it unless it is the end.
pub proof fn find_char_place(s: Seq<char>, c: char, from: int)
    requires
        0 <= from <= s.len(),
    ensures
        from <= find_char(s, c, from) <= s.len(),
        forall|i: int| from <= i < find_char(s, c, from) ==> s[i] != c,
        find_char(s, c, from) < s.len() ==> s[find_char(s, c, from)] == c,
    decreases s.len() - from,
{
    if from < s.len() && s[from] != c {
        find_char_place(s, c, from + 1);
    }
}

/// The place of the first `c` in `chars` from `from` on.
pub fn find_in(chars: &[char], c: char, from: usize) -> (place: usize)
    requires
        from <= chars@.len(),
    ensures
        place == find_char(chars@, c, from as int),
        from <= place <= chars@.len(),
{
    proof {
        find_char_place(chars@, c, from as int);
    }
    let mut i: usize = from;
    while i < chars.len() && chars[i] != c
        invariant
            from <= i <= chars@.len(),
            find_char(chars@, c, i as int) == find_char(chars@, c, from as int),
        decreases chars@.len() - i,
    {
        i = i + 1;
    }
    i
}

/// The lines of `s` from `from` on. A line ends at a line feed, and a carriage
/// return right before the line feed belongs to the ending; the last line may
/// go without an ending.
pub open spec fn lines_from(s: Seq<char>, from: int) -> Seq<Seq<char>>
    decreases s.len() - from,
    via lines_from_decreases
{
    if from < 0 || from >= s.len() {
        Seq::empty()
    } else {
        let end = find_char(s, '\n', from);
        if end >= s.len() {
            seq![s.subrange(from, s.len() as int)]
        } else if end > from && s[end - 1] == '\r' {
            seq![s.subrange(from, end - 1)] + lines_from(s, end + 1)
        } else {
            seq![s.subrange(from, end)] + lines_from(s, end + 1)
        }
    }
}

#[via_fn]
proof fn lines_from_decreases(s: Seq<char>, from: int) {
    if 0 <= from < s.len() {
        find_char_place(s, '\n', from);
    }
}

/// The lines of `s`.
pub open spec fn lines(s: Seq<char>) -> Seq<Seq<char>> {
    lines_from(s, 0)
}

/// A line of a text as the places of its first character and of its end.
pub open spec fn spans_as_lines(s: Seq<char>, spans: Seq<(usize, usize)>) -> Seq<Seq<char>> {
    spans.map_values(|span: (usize, usize)| s.subrange(span.0 as int, span.1 as int))
}

/// The lines of `chars`, each as the place of its first character and of its
/// end.
pub fn line_spans(chars: &[char]) -> (spans: Vec<(usize, usize)>)
    ensures
        forall|i: int|
            0 <= i < spans@.len() ==> (#[trigger] spans@[i]).0 <= spans@[i].1 <= chars@.len(),
        spans_as_lines(chars@, spans@) == lines(chars@),
{
    let n = chars.len();
    let mut spans: Vec<(usize, usize)> = Vec::new();
    let mut from: usize = 0;
    while from < n
        invariant
            from <= n,
            n == chars@.len(),
            forall|i: int|
                0 <= i < spans@.len() ==> (#[trigger] spans@[i]).0 <= spans@[i].1 <= chars@.len(),
            lines(chars@) == spans_as_lines(chars@, spans@) + lines_from(chars@, from as int),
        decreases n - from,
    {
        let end = find_in(chars, '\n', from);
        proof {
            find_char_place(chars@, '\n', from as int);
        }
        let ghost done = spans@;
        let stop = if end < n && end > from && chars[end - 1] == '\r' {
            end - 1
        } else {
            end
        };
        spans.push((from, stop));
        let next = if end < n {
            end + 1
        } else {
            n
        };
        proof {
            let line = chars@.subrange(from as int, stop as int);
            assert(spans_as_lines(chars@, spans@) =~= spans_as_lines(chars@, done).push(line));
            assert(lines_from(chars@, from as int) =~= seq![line] + lines_from(
                chars@,
                next as int,
            ));
            assert(spans_as_lines(chars@, done) + (seq![line] + lines_from(chars@, next as int))
                =~= spans_as_lines(chars@, spans@) + lines_from(chars@, next as int));
        }
        from = next;
    }
    assert(spans_as_lines(chars@, spans@) + Seq::<Seq<char>>::empty() =~= spans_as_lines(
        chars@,
        spans@,
    ));
    spans
}

} // verus!
