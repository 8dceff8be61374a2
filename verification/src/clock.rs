//! Points in time.

use vstd::prelude::*;
use vstd::string::*;

verus! {

/// The first second that has a calendar date, counted from 1970.
pub const MIN_SECS: i64 = -8_334_601_228_800;

/// The last second that has a calendar date, counted from 1970.
pub const MAX_SECS: i64 = 8_210_266_876_799;

/// A point in time: seconds since 1970-01-01T00:00:00Z and nanoseconds on top.
#[derive(Debug, Clone, Copy, PartialEq, Eq, Structural)]
pub struct Moment {
    pub secs: i64,
    pub nanos: u32,
}

/// A second of the years 0 to 9999, which timestamps write with four digits.
pub open spec fn has_plain_year(secs: int) -> bool {
    -62_167_219_200 <= secs <= 253_402_300_799
}

impl Moment {
    /// A point that has a calendar date.
    pub open spec fn has_date(self) -> bool {
        MIN_SECS <= self.secs <= MAX_SECS && self.nanos < 1_000_000_000
    }

    /// A point that the clock can show: one from 1970 on that has a date.
    pub open spec fn can_be_now(self) -> bool {
        self.has_date() && self.secs >= 0
    }

    /// This point lies after the other.
    pub open spec fn is_after(self, other: Moment) -> bool {
        self.secs > other.secs || (self.secs == other.secs && self.nanos > other.nanos)
    }

    /// Whether this point lies after the other.
    pub fn after(self, other: Moment) -> (r: bool)
        ensures
            r == self.is_after(other),
    {
        self.secs > other.secs || (self.secs == other.secs && self.nanos > other.nanos)
    }
}

/// What `DateTime::parse_from_rfc3339` reads from a text: the seconds and
/// nanoseconds of the point in time; nothing where the text is not a timestamp.
pub uninterp spec fn rfc3339_parts(text: Seq<char>) -> Option<(i64, u32)>;

/// What `DateTime::to_rfc3339` writes for a point in time.
pub uninterp spec fn rfc3339_text(secs: i64, nanos: u32) -> Seq<char>;

/// What `DateTime::to_rfc3339_opts` writes for a point in time in whole
/// seconds with `Z`.
pub uninterp spec fn rfc3339_seconds_text(secs: i64, nanos: u32) -> Seq<char>;

/// `chrono::DateTime::parse_from_rfc3339`. Which texts are timestamps and what
/// they denote is not stated beyond the name.
#[verifier::external_body]
fn parse_rfc3339(text: &str) -> (r: Option<(i64, u32)>)
    ensures
        r == rfc3339_parts(text@),
{
    chrono::DateTime::parse_from_rfc3339(text).ok().map(|d| (d.timestamp(), d.timestamp_subsec_nanos()))
}

/// `chrono::DateTime::from_timestamp`, which has a date for every point in its
/// range, followed by `to_rfc3339`. The text is not stated beyond the name and
/// that `DateTime::parse_from_rfc3339` reads the point back from it where the year
/// has four digits.
#[verifier::external_body]
pub(crate) fn format_rfc3339(moment: Moment) -> (r: String)
    requires
        moment.has_date(),
    ensures
        r@ == rfc3339_text(moment.secs, moment.nanos),
        has_plain_year(moment.secs as int) ==> rfc3339_parts(r@) == Some(
            (moment.secs, moment.nanos),
        ),
{
    chrono::DateTime::from_timestamp(moment.secs, moment.nanos).unwrap().to_rfc3339()
}

/// `chrono::DateTime::from_timestamp`, which has a date for every point in its
/// range, followed by `to_rfc3339_opts` in whole seconds with `Z`. The text is
/// not stated beyond the name and that `DateTime::parse_from_rfc3339` reads the
/// second back from it where the year has four digits.
#[verifier::external_body]
pub(crate) fn format_rfc3339_seconds(moment: Moment) -> (r: String)
    requires
        moment.has_date(),
    ensures
        r@ == rfc3339_seconds_text(moment.secs, moment.nanos),
        has_plain_year(moment.secs as int) ==> rfc3339_parts(r@) == Some((moment.secs, 0u32)),
{
    chrono::DateTime::from_timestamp(moment.secs, moment.nanos).unwrap().to_rfc3339_opts(chrono::SecondsFormat::Secs, true)
}

/// `chrono::Utc::now`: some point in time from 1970 on that has a date.
#[verifier::external_body]
pub(crate) fn utc_now() -> (r: Moment)
    ensures
        r.can_be_now(),
{
    let now = chrono::Utc::now();
    Moment { secs: now.timestamp(), nanos: now.timestamp_subsec_nanos() }
}

/// The point in time that a timestamp denotes.
pub open spec fn moment_of(text: Seq<char>) -> Option<Moment> {
    match rfc3339_parts(text) {
        Some((secs, nanos)) => Some(Moment { secs, nanos }),
        None => None,
    }
}

/// The point in time that a timestamp denotes.
pub fn parse_moment(text: &str) -> (r: Option<Moment>)
    ensures
        r == moment_of(text@),
{
    match parse_rfc3339(text) {
        Some((secs, nanos)) => Some(Moment { secs, nanos }),
        None => None,
    }
}

/// A text that the clock can give: the timestamp of a point that it can show, in
/// whole seconds, which reads back as that second where the year has four digits.
pub open spec fn is_clock_text(text: Seq<char>) -> bool {
    exists|now: Moment|
        {
            &&& now.can_be_now()
            &&& text == #[trigger] rfc3339_seconds_text(now.secs, now.nanos)
            &&& has_plain_year(now.secs as int) ==> moment_of(text) == Some(
                Moment { secs: now.secs, nanos: 0 },
            )
        }
}

/// The present as a timestamp in whole seconds.
pub fn now_seconds() -> (r: String)
    ensures
        is_clock_text(r@),
{
    let now = utc_now();
    format_rfc3339_seconds(now)
}

} // verus!
