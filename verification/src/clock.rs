//! Moments in time, and how they are written.

use vstd::prelude::*;

verus! {

/// A moment: the seconds and nanoseconds since 1970-01-01T00:00:00Z, and how
/// many seconds the local clock is ahead of UTC.
#[derive(Clone, Copy, Debug, PartialEq, Eq, Structural)]
pub struct Moment {
    pub seconds: i64,
    pub nanos: u32,
    pub offset: i32,
}

/// The last second that a moment can lie in: that of the last representable
/// date, in the year 262142.
pub const LAST_SECOND: i64 = 8_210_266_876_799;

impl Moment {
    /// Whether the moment lies between 1970 and the last representable date,
    /// in a time zone less than a day from UTC.
    pub open spec fn valid(self) -> bool {
        &&& 0 <= self.seconds <= LAST_SECOND
        &&& self.nanos < 1_000_000_000
        &&& -86_400 < self.offset < 86_400
    }

    /// Whether the local year of the moment is written with four digits: the local
    /// time lies before the end of the year 9999.
    pub open spec fn four_digit_year(self) -> bool {
        self.seconds + self.offset < 253_402_300_800
    }
}

/// What `chrono::DateTime::format` makes of a moment, in local time, under a
/// format.
pub uninterp spec fn stamp_text(
    seconds: i64,
    nanos: u32,
    offset: i32,
    format: Seq<char>,
) -> Seq<char>;

/// Whether a stamp has the shape of one for `moment`: the date, an underscore,
/// six digits of the time of day, an underscore, and three digits of the
/// milliseconds. The date is of eight digits, or, from the year 10000 on, of a
/// plus sign and nine or ten digits.
pub open spec fn plain_stamp(stamp: Seq<char>, moment: Moment) -> bool {
    let date = stamp.len() - 11;
    &&& moment.four_digit_year() ==> date == 8
    &&& !moment.four_digit_year() ==> 10 <= date <= 11 && stamp[0] == '+'
    &&& stamp[date] == '_'
    &&& stamp[date + 7] == '_'
    &&& forall|i: int|
        0 <= i < stamp.len() && i != date && i != date + 7 && (i > 0 || moment.four_digit_year())
            ==> '0' <= #[trigger] stamp[i] <= '9'
}

/// What `chrono::DateTime::to_rfc3339` makes of a moment, in local time.
pub uninterp spec fn rfc3339_text(seconds: i64, nanos: u32, offset: i32) -> Seq<char>;

/// Calls `chrono::Local::now`. What it returns depends on the clock and the
/// time zone of the machine; that it is a valid moment is all that is claimed.
/// It panics on a machine whose clock stands before 1970.
#[verifier::external_body]
pub(crate) fn local_now() -> (now: Moment)
    ensures
        now.valid(),
{
    let now = chrono::Local::now();
    Moment {
        seconds: now.timestamp(),
        nanos: now.timestamp_subsec_nanos(),
        offset: now.offset().local_minus_utc(),
    }
}

/// Calls `chrono::DateTime::format` on a moment, with the format for date, time
/// of day and milliseconds in local time. The moment and the format alone decide
/// the text, and it has the shape that [`plain_stamp`] describes: chrono puts a
/// plus sign before a year of more than four digits.
#[verifier::external_body]
pub(crate) fn stamp(moment: &Moment, format: &str) -> (text: String)
    requires
        moment.valid(),
        format@ == "%Y%m%d_%H%M%S_%3f"@,
    ensures
        text@ == stamp_text(moment.seconds, moment.nanos, moment.offset, format@),
        plain_stamp(text@, *moment),
{
    let utc = chrono::DateTime::from_timestamp(moment.seconds, moment.nanos).unwrap();
    let zone = chrono::FixedOffset::east_opt(moment.offset).unwrap();
    utc.with_timezone(&zone).format(format).to_string()
}

/// Calls `chrono::DateTime::to_rfc3339` on a moment. The moment alone decides
/// the text.
#[verifier::external_body]
pub(crate) fn rfc3339(moment: &Moment) -> (text: String)
    requires
        moment.valid(),
    ensures
        text@ == rfc3339_text(moment.seconds, moment.nanos, moment.offset),
{
    let utc = chrono::DateTime::from_timestamp(moment.seconds, moment.nanos).unwrap();
    let zone = chrono::FixedOffset::east_opt(moment.offset).unwrap();
    utc.with_timezone(&zone).to_rfc3339()
}

} // verus!
