//! Control files, which say whose job it is and what it is called.

use crate::split::{line_spans, lines, spans_as_lines, trim_text, trimmed, Fill};
use crate::text::{chars_of, from_utf8_lossy, lossy_text, option_text};
use vstd::prelude::*;
use vstd::slice::slice_subrange;

verus! {

/// What a control file says of a job.
#[derive(Debug)]
pub struct LprControlInfo {
    pub host: Option<String>,
    pub user: Option<String>,
    pub job_name: Option<String>,
    pub source_name: Option<String>,
    pub raw: String,
}

/// What an [`LprControlInfo`] holds.
pub struct ControlView {
    pub host: Option<Seq<char>>,
    pub user: Option<Seq<char>>,
    pub job_name: Option<Seq<char>>,
    pub source_name: Option<Seq<char>>,
    pub raw: Seq<char>,
}

impl View for LprControlInfo {
    type V = ControlView;

    open spec fn view(&self) -> ControlView {
        ControlView {
            host: option_text(self.host),
            user: option_text(self.user),
            job_name: option_text(self.job_name),
            source_name: option_text(self.source_name),
            raw: self.raw@,
        }
    }
}

/// What the last of the lines that begin with `code` says, without the white
/// space around it.
pub open spec fn last_value(lines: Seq<Seq<char>>, code: char) -> Option<Seq<char>>
    decreases lines.len(),
{
    if lines.len() == 0 {
        None
    } else if lines.last().len() > 0 && lines.last()[0] == code {
        Some(trimmed(lines.last().drop_first(), Fill::Blank))
    } else {
        last_value(lines.drop_last(), code)
    }
}

/// What lines say of a job.
pub open spec fn control_of_lines(lines: Seq<Seq<char>>, raw: Seq<char>) -> ControlView {
    ControlView {
        host: last_value(lines, 'H'),
        user: last_value(lines, 'P'),
        job_name: last_value(lines, 'J'),
        source_name: last_value(lines, 'N'),
        raw,
    }
}

/// What a control file says of a job.
pub open spec fn control_of(raw: Seq<u8>) -> ControlView {
    control_of_lines(lines(lossy_text(raw)), lossy_text(raw))
}

/// No control file.
pub open spec fn no_control() -> ControlView {
    ControlView {
        host: None,
        user: None,
        job_name: None,
        source_name: None,
        raw: Seq::empty(),
    }
}

impl Default for LprControlInfo {
    fn default() -> (info: Self)
        ensures
            info@ == no_control(),
    {
        LprControlInfo {
            host: None,
            user: None,
            job_name: None,
            source_name: None,
            raw: String::new(),
        }
    }
}

impl LprControlInfo {
    /// Reads a control file.
    pub fn parse(raw: &[u8]) -> (info: Self)
        ensures
            info@ == control_of(raw@),
    {
        let text = from_utf8_lossy(raw);
        let chars = chars_of(text.as_str());
        let spans = line_spans(chars.as_slice());
        let mut info = LprControlInfo::default();
        info.raw = text;
        let ghost all = spans_as_lines(chars@, spans@);
        let mut i: usize = 0;
        while i < spans.len()
            invariant
                i <= spans@.len(),
                all == spans_as_lines(chars@, spans@),
                forall|k: int|
                    0 <= k < spans@.len() ==> (#[trigger] spans@[k]).0 <= spans@[k].1
                        <= chars@.len(),
                info@ == control_of_lines(all.take(i as int), lossy_text(raw@)),
            decreases spans@.len() - i,
        {
            let (start, end) = spans[i];
            let ghost before = all.take(i as int);
            let ghost line = all[i as int];
            proof {
                assert(all.take(i + 1).drop_last() =~= before);
                assert(all.take(i + 1).last() == line);
                assert(line == chars@.subrange(start as int, end as int));
            }
            if start < end {
                let code = chars[start];
                let rest = slice_subrange(chars.as_slice(), start, end);
                assert(rest@ =~= line);
                let value = trim_text(rest, 1);
                assert(rest@.subrange(1, rest@.len() as int) =~= line.drop_first());
                if code == 'H' {
                    info.host = Some(value);
                } else if code == 'P' {
                    info.user = Some(value);
                } else if code == 'J' {
                    info.job_name = Some(value);
                } else if code == 'N' {
                    info.source_name = Some(value);
                }
            }
            i = i + 1;
        }
        assert(all.take(i as int) =~= all);
        info
    }
}

} // verus!
