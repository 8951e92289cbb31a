//! Instants as nanoseconds since the start of 1970, UTC, and what calendars make of them. Those
//! nanoseconds leave leap seconds out; an instant that a text writes may lie in one.

use chrono::Datelike;
use vstd::prelude::*;

verus! {

/// Nanoseconds in a second, a minute and an hour.
pub const SECOND: i128 = 1_000_000_000;

pub const MINUTE: i128 = 60_000_000_000;

pub const HOUR: i128 = 3_600_000_000_000;

/// The furthest instants on either side whose seconds are sure to fit in 64 bits.
pub const MAX_INSTANT: i128 = 9_000_000_000_000_000_000_000_000_000;

/// The instant is one whose seconds fit in 64 bits.
pub open spec fn is_instant(t: int) -> bool {
    -MAX_INSTANT <= t <= MAX_INSTANT
}

/// What `chrono` reads as a date and time with an offset: the seconds since the start of 1970 in
/// UTC, and the nanoseconds past them.
pub uninterp spec fn utc_reading(s: Seq<char>) -> Option<(i64, u32)>;

/// `str::parse` into `chrono::DateTime<Utc>`: the instant that the text writes in RFC 3339, or a
/// form close to it.
#[verifier::external_body]
fn parse_utc(s: &str) -> (r: Option<(i64, u32)>)
    ensures
        r == utc_reading(s@),
{
    s.parse::<chrono::DateTime<chrono::Utc>>().ok().map(
        |t| (t.timestamp(), t.timestamp_subsec_nanos()),
    )
}

/// What `chrono` reads as a date: the days since the end of the year before year 1.
pub uninterp spec fn date_reading(s: Seq<char>) -> Option<i32>;

/// `str::parse` into `chrono::NaiveDate`: the day that the text writes as `year-month-day`.
#[verifier::external_body]
fn parse_date(s: &str) -> (r: Option<i32>)
    ensures
        r == date_reading(s@),
{
    s.parse::<chrono::NaiveDate>().ok().map(|d| d.num_days_from_ce())
}

/// The days before 1970 began.
pub const DAYS_TO_1970: i64 = 719_163;

/// An instant as a calendar reads it: the seconds since the start of 1970 in UTC, and the
/// nanoseconds past them. Within a leap second, which has no number of its own, the nanoseconds go
/// on past a full second.
#[derive(Clone, Copy, Debug, PartialEq, Eq, Structural)]
pub struct Stamp {
    pub secs: i64,
    pub nanos: u32,
}

impl Stamp {
    /// The instant lies in a leap second.
    pub open spec fn is_leap(self) -> bool {
        self.nanos >= 1_000_000_000
    }

    /// Where the instant stands among others: by its second, then by what is past it.
    pub open spec fn key(self) -> int {
        self.secs * 0x1_0000_0000 + self.nanos
    }

    /// Where steps from the instant are counted from, in nanoseconds since the start of 1970: a
    /// leap second counts as the second before it.
    pub open spec fn base(self) -> int {
        self.secs * SECOND + self.nanos - if self.is_leap() {
            SECOND as int
        } else {
            0
        }
    }

    /// The instant so many nanoseconds after the start of 1970, outside of any leap second.
    pub open spec fn of(t: int) -> Stamp {
        Stamp { secs: (t / SECOND as int) as i64, nanos: (t % SECOND as int) as u32 }
    }

    /// The instant so many nanoseconds after the start of 1970, outside of any leap second.
    pub fn at(t: i128) -> (r: Stamp)
        requires
            i64::MIN <= t as int / SECOND as int <= i64::MAX,
        ensures
            r == Stamp::of(t as int),
            !r.is_leap(),
            r.base() == t,
    {
        let secs: i128 = t.checked_div_euclid(SECOND).unwrap();
        let nanos: i128 = t.checked_rem_euclid(SECOND).unwrap();
        Stamp { secs: secs as i64, nanos: nanos as u32 }
    }

    pub fn place(self) -> (r: i128)
        ensures
            r == self.key(),
    {
        self.secs as i128 * 0x1_0000_0000 + self.nanos as i128
    }
}

/// Two instants that stand at the same place are one.
pub(crate) proof fn lemma_key_tells(a: Stamp, b: Stamp)
    requires
        a.key() == b.key(),
    ensures
        a == b,
{
}

/// An instant outside of any leap second is told by its nanoseconds.
pub(crate) proof fn lemma_base_tells(a: Stamp)
    requires
        !a.is_leap(),
    ensures
        Stamp::of(a.base()) == a,
        a.base() / SECOND as int == a.secs,
{
}

/// The instant that a text writes: a date and time with an offset, or a bare date, which is its
/// midnight.
pub open spec fn stamp_of(s: Seq<char>) -> Option<Stamp> {
    match utc_reading(s) {
        Some((secs, nanos)) => Some(Stamp { secs, nanos }),
        None => match date_reading(s) {
            Some(days) => Some(
                Stamp { secs: ((days - DAYS_TO_1970) * 86_400) as i64, nanos: 0 },
            ),
            None => None,
        },
    }
}

/// The instant that a text writes: a date and time with an offset, or a bare date.
pub fn parse_stamp(s: &str) -> (r: Option<Stamp>)
    ensures
        r == stamp_of(s@),
{
    match parse_utc(s) {
        Some((secs, nanos)) => Some(Stamp { secs, nanos }),
        None => match parse_date(s) {
            Some(days) => Some(Stamp { secs: (days as i64 - DAYS_TO_1970) * 86_400, nanos: 0 }),
            None => None,
        },
    }
}

/// How instants are written for a time dimension, to the second.
pub const ISO: &'static str = "%Y-%m-%dT%H:%M:%SZ";

/// How instants are written in the name of a cache directory.
pub const TAG: &'static str = "%Y%m%dT%H%M";

/// How instants are written in the name of a rendered frame.
pub const FRAME_NAME: &'static str = "%Y%m%d-%H%M";

/// How the time of day is written for the archive picker.
pub const TIME_OF_DAY: &'static str = "%H:%M";

/// How the hour and day of a model run are written.
pub const CYCLE: &'static str = "%HZ %b %-d";

/// How the day and hour a forecast is valid for are written.
pub const VALID: &'static str = "%a %HZ";

/// One of the patterns that instants are written by.
pub open spec fn is_pattern(p: Seq<char>) -> bool {
    p == "%Y-%m-%dT%H:%M:%SZ"@ || p == "%Y%m%dT%H%M"@ || p == "%Y%m%d-%H%M"@ || p == "%H:%M"@ || p
        == "%HZ %b %-d"@ || p == "%a %HZ"@
}

/// What `chrono` writes by a pattern for a number of seconds since the start of 1970, and the
/// nanoseconds past them.
pub uninterp spec fn written(secs: i64, nanos: u32, pattern: Seq<char>) -> Option<Seq<char>>;

/// `chrono::DateTime::format`: the instant, in UTC, written by the pattern. `None` where the year
/// is further out than the calendar goes, or where no leap second can be.
#[verifier::external_body]
fn format_utc(secs: i64, nanos: u32, pattern: &str) -> (r: Option<String>)
    requires
        is_pattern(pattern@),
    ensures
        match written(secs, nanos, pattern@) {
            Some(t) => r is Some && (r->0)@ == t,
            None => r is None,
        },
{
    chrono::DateTime::from_timestamp(secs, nanos).map(|t| t.format(pattern).to_string())
}

/// The whole seconds of an instant.
pub open spec fn seconds_of(t: int) -> int {
    t / (SECOND as int)
}

/// An instant written by a pattern, to the second.
pub open spec fn instant_text(t: int, pattern: Seq<char>) -> Option<Seq<char>> {
    written(seconds_of(t) as i64, 0, pattern)
}

/// An instant written by a pattern, to the second.
pub fn write_instant(t: i128, pattern: &str) -> (r: Option<String>)
    requires
        is_instant(t as int),
        is_pattern(pattern@),
    ensures
        match instant_text(t as int, pattern@) {
            Some(s) => r is Some && (r->0)@ == s,
            None => r is None,
        },
{
    let secs: i128 = t.checked_div_euclid(SECOND).unwrap();
    format_utc(secs as i64, 0, pattern)
}

/// An instant written by a pattern.
pub open spec fn stamp_text(t: Stamp, pattern: Seq<char>) -> Option<Seq<char>> {
    written(t.secs, t.nanos, pattern)
}

/// An instant written by a pattern; one within a leap second shows its sixtieth second.
pub fn write_stamp(t: Stamp, pattern: &str) -> (r: Option<String>)
    requires
        is_pattern(pattern@),
    ensures
        match stamp_text(t, pattern@) {
            Some(s) => r is Some && (r->0)@ == s,
            None => r is None,
        },
{
    format_utc(t.secs, t.nanos, pattern)
}

/// Instants stand in the order of time: by their second, and within it by what is past it. A second
/// has a thousand million nanoseconds, and a bare date is its midnight.
pub proof fn instants_stand_in_order(a: Stamp, b: Stamp, s: Seq<char>)
    ensures
        a.key() < b.key() <==> a.secs < b.secs || (a.secs == b.secs && a.nanos < b.nanos),
        a.nanos < 1_000_000_000 ==> a.base() == a.secs * 1_000_000_000 + a.nanos,
        a.nanos >= 1_000_000_000 ==> a.base() == a.secs * 1_000_000_000 + a.nanos - 1_000_000_000,
        MINUTE == 60 * SECOND && HOUR == 60 * MINUTE && SECOND == 1_000_000_000,
        utc_reading(s) is None && date_reading(s) == Some(719_163i32) ==> stamp_of(s) == Some(
            Stamp { secs: 0, nanos: 0 },
        ),
        utc_reading(s) is None && date_reading(s) == Some(719_164i32) ==> stamp_of(s) == Some(
            Stamp { secs: 86_400, nanos: 0 },
        ),
        utc_reading(s) matches Some(r) ==> stamp_of(s) == Some(Stamp { secs: r.0, nanos: r.1 }),
{
}

/// A second lasts until the next: what is past it does not count, before 1970 either.
pub proof fn seconds_are_whole(s: int, past: int)
    requires
        0 <= past < 1_000_000_000,
    ensures
        seconds_of(s * 1_000_000_000 + past) == s,
{
}

} // verus!
