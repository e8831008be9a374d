//! Instants and calendar days as plain numbers, and the calendar work that is
//! left to `chrono`.

use vstd::prelude::*;

verus! {

/// An instant in UTC: whole seconds since 1970-01-01T00:00:00Z, and the
/// nanoseconds into that second.
#[derive(Debug, Clone, Copy, PartialEq, Eq, Structural)]
pub struct Timestamp {
    pub secs: i64,
    pub nanos: u32,
}

/// The instant that `chrono` reads from a text in its relaxed RFC 3339 form,
/// brought to UTC; `None` where it reads none.
pub uninterp spec fn utc_instant_of(text: Seq<char>) -> Option<Timestamp>;

/// The instant that `chrono` reads from a text of the form
/// `%Y-%m-%d %H:%M:%S`, taken as UTC; `None` where it reads none.
pub uninterp spec fn plain_instant_of(text: Seq<char>) -> Option<Timestamp>;

/// Whether `chrono` has a date and time for so many seconds since the epoch.
pub uninterp spec fn epoch_second_in_range(secs: int) -> bool;

/// The text `chrono` prints for the day with this number, where day 1 is
/// January 1 of the year 1; `None` where it has no such day.
pub uninterp spec fn civil_date_text(day: int) -> Option<Seq<char>>;

/// `str::parse::<chrono::DateTime<chrono::Utc>>`, with the instant handed out as
/// `timestamp()` and `timestamp_subsec_nanos()`. The result depends on the text
/// alone.
#[verifier::external_body]
fn parse_utc(text: &str) -> (t: Option<Timestamp>)
    ensures
        t == utc_instant_of(text@),
{
    match text.parse::<chrono::DateTime<chrono::Utc>>() {
        Ok(d) => Some(Timestamp { secs: d.timestamp(), nanos: d.timestamp_subsec_nanos() }),
        Err(_) => None,
    }
}

/// `chrono::NaiveDateTime::parse_from_str` with the format `%Y-%m-%d %H:%M:%S`,
/// the date and time then taken as UTC. The result depends on the text alone.
#[verifier::external_body]
fn parse_plain(text: &str) -> (t: Option<Timestamp>)
    ensures
        t == plain_instant_of(text@),
{
    match chrono::NaiveDateTime::parse_from_str(text, "%Y-%m-%d %H:%M:%S") {
        Ok(n) => Some(
            Timestamp { secs: n.and_utc().timestamp(), nanos: n.and_utc().timestamp_subsec_nanos() },
        ),
        Err(_) => None,
    }
}

/// Whether `chrono::TimeZone::timestamp_opt` of `chrono::Utc` yields a single
/// instant for `secs` and no nanoseconds, which depends on `secs` alone.
#[verifier::external_body]
fn has_epoch_second(secs: i64) -> (known: bool)
    ensures
        known == epoch_second_in_range(secs as int),
{
    chrono::TimeZone::timestamp_opt(&chrono::Utc, secs, 0).single().is_some()
}

/// `chrono::NaiveDate::from_num_days_from_ce_opt(day)`, printed with `to_string`.
#[verifier::external_body]
fn print_day(day: i32) -> (text: Option<String>)
    ensures
        match text {
            Some(t) => civil_date_text(day as int) == Some(t@),
            None => civil_date_text(day as int) is None,
        },
{
    match chrono::NaiveDate::from_num_days_from_ce_opt(day) {
        Some(date) => Some(date.to_string()),
        None => None,
    }
}

/// What a text says of an instant: read as RFC 3339 first, and as a plain date
/// and time in UTC where that fails.
pub open spec fn instant_of(text: Seq<char>) -> Option<Timestamp> {
    first_reading(utc_instant_of(text), plain_instant_of(text))
}

/// The instant so many whole seconds after the epoch where the calendar
/// reaches that far, else `fallback`.
pub open spec fn second_or(secs: i64, reached: bool, fallback: Timestamp) -> Timestamp {
    if reached {
        Timestamp { secs, nanos: 0 }
    } else {
        fallback
    }
}

/// The instant so many whole seconds after the epoch, or `fallback` where the
/// calendar does not reach that far.
pub open spec fn instant_at(secs: i64, fallback: Timestamp) -> Timestamp {
    second_or(secs, epoch_second_in_range(secs as int), fallback)
}

/// The first of two readings that gave an instant.
pub open spec fn first_reading(first: Option<Timestamp>, second: Option<Timestamp>) -> Option<
    Timestamp,
> {
    match first {
        Some(t) => Some(t),
        None => second,
    }
}

impl Timestamp {
    /// Whether this instant is `other` or comes before it.
    pub open spec fn not_after(self, other: Timestamp) -> bool {
        self.secs < other.secs || (self.secs == other.secs && self.nanos <= other.nanos)
    }

    /// Whether this instant is `other` or comes before it.
    pub fn is_not_after(&self, other: &Timestamp) -> (b: bool)
        ensures
            b == self.not_after(*other),
    {
        self.secs < other.secs || (self.secs == other.secs && self.nanos <= other.nanos)
    }

    /// Reads an instant from a text, in either of the two forms.
    pub fn parse(text: &str) -> (t: Option<Timestamp>)
        ensures
            t == instant_of(text@),
    {
        match parse_utc(text) {
            Some(t) => Some(t),
            None => parse_plain(text),
        }
    }

    /// The instant `secs` whole seconds after the epoch where the calendar
    /// reaches that far, as `reached` says, else `fallback`.
    pub fn at_second(secs: i64, reached: bool, fallback: Timestamp) -> (t: Timestamp)
        ensures
            t == second_or(secs, reached, fallback),
    {
        if reached {
            Timestamp { secs, nanos: 0 }
        } else {
            fallback
        }
    }

    /// The instant `secs` whole seconds after the epoch, or `fallback` where the
    /// calendar does not reach that far.
    pub fn from_epoch_seconds(secs: i64, fallback: Timestamp) -> (t: Timestamp)
        ensures
            t == instant_at(secs, fallback),
    {
        Timestamp::at_second(secs, has_epoch_second(secs), fallback)
    }
}

/// The number of the day `days_back` days before `today`, where it can be
/// counted in 32 bits.
pub open spec fn day_number_before(today: i32, days_back: u32) -> Option<i32> {
    if today - days_back < i32::MIN {
        None
    } else {
        Some((today - days_back) as i32)
    }
}

/// The calendar day `days_back` days before `today`, as `YYYY-MM-DD`; `None`
/// where the calendar has no such day.
pub open spec fn day_text(today: i32, days_back: u32) -> Option<Seq<char>> {
    match day_number_before(today, days_back) {
        Some(day) => civil_date_text(day as int),
        None => None,
    }
}

/// The number of the day `days_back` days before `today`, both counted in days
/// with January 1 of the year 1 as day 1.
pub fn day_before(today: i32, days_back: u32) -> (day: Option<i32>)
    ensures
        day == day_number_before(today, days_back),
{
    let day: i64 = today as i64 - days_back as i64;
    if day < -0x8000_0000i64 {
        None
    } else {
        Some(day as i32)
    }
}

/// Prints the calendar day `days_back` days before `today`, both counted in
/// days with January 1 of the year 1 as day 1.
pub fn date_before(today: i32, days_back: u32) -> (text: Option<String>)
    ensures
        match text {
            Some(t) => day_text(today, days_back) == Some(t@),
            None => day_text(today, days_back) is None,
        },
{
    match day_before(today, days_back) {
        Some(day) => print_day(day),
        None => None,
    }
}

} // verus!
