//! How the time of a copy is shown: today, yesterday, or with its date,
//! formatted by `jiff`.

use vstd::prelude::*;

use crate::chars::str_concat;

verus! {

/// A civil date and time, to the second, in the user's time zone.
#[derive(Clone, Copy, Debug, PartialEq, Eq, Structural)]
pub struct CivilDateTime {
    pub year: i16,
    pub month: i8,
    pub day: i8,
    pub hour: i8,
    pub minute: i8,
    pub second: i8,
}

/// What `jiff::fmt::strtime::format` gives for a format and a civil date
/// and time: `None` where the date and time is not valid or the format
/// fails.
pub uninterp spec fn strtime_format(format: Seq<char>, dt: CivilDateTime) -> Option<Seq<char>>;

/// `jiff::civil::DateTime::new` (no fraction of a second), then
/// `jiff::fmt::strtime::format`; claimed: the result is
/// `strtime_format(format, dt)`, a function of the two alone. The format
/// language itself is not stated.
#[verifier::external_body]
fn strtime(format: &str, dt: CivilDateTime) -> (r: Option<String>)
    ensures
        match r {
            Some(s) => strtime_format(format@, dt) == Some(s@),
            None => strtime_format(format@, dt) is None,
        },
{
    let d = jiff::civil::DateTime::new(dt.year, dt.month, dt.day, dt.hour, dt.minute, dt.second, 0).ok()?;
    jiff::fmt::strtime::format(format, d).ok()
}

/// The format of a time on day `day` of its month, seen on day `today`:
/// `Today` where the days agree, `Yesterday` where `today` is the day of
/// the day before it, else its date; then the time of day.
pub open spec fn date_format_spec(today: i8, day: i8, day_before: i8) -> Seq<char> {
    let prefix = if today == day {
        "Today"@
    } else if today == day_before {
        "Yesterday"@
    } else {
        "%d. %b %Y"@
    };
    prefix + ", %H:%M:%S"@
}

/// The format a time is shown with (see `date_format_spec`).
pub fn date_format(today: i8, day: i8, day_before: i8) -> (r: String)
    ensures
        r@ == date_format_spec(today, day, day_before),
{
    let prefix = if today == day {
        "Today"
    } else if today == day_before {
        "Yesterday"
    } else {
        "%d. %b %Y"
    };
    str_concat(prefix, ", %H:%M:%S")
}

/// A time shown as the history shows it: `dt` in the user's time zone,
/// `today` the day of the month it is now, `day_before` the day of the
/// month of the day before `dt`.
pub fn format_date(today: i8, dt: CivilDateTime, day_before: i8) -> (r: Option<String>)
    ensures
        match r {
            Some(s) => strtime_format(date_format_spec(today, dt.day, day_before), dt) == Some(s@),
            None => strtime_format(date_format_spec(today, dt.day, day_before), dt) is None,
        },
{
    let format = date_format(today, dt.day, day_before);
    strtime(format.as_str(), dt)
}

} // verus!
