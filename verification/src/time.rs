//! Instants and calendar dates as plain integers.

use vstd::prelude::*;
use vstd::string::StringExecFns;

use crate::error::{ChronicleError, ChronicleErrorView};

verus! {

/// Whether `chrono::DateTime::from_timestamp` has an instant for these
/// seconds since 1970-01-01 00:00:00 UTC and these nanoseconds past them.
pub uninterp spec fn is_utc_instant(seconds: int, nanos: int) -> bool;

/// The text that `chrono` gives for an instant under the pattern
/// `%Y-%m-%d %H:%M:%S UTC`.
pub uninterp spec fn utc_text(seconds: int, nanos: int) -> Seq<char>;

/// Whether `chrono::NaiveDate::from_ymd_opt` has a date for this year, month
/// and day.
pub uninterp spec fn is_calendar_date(year: int, month: int, day: int) -> bool;

/// The text that `chrono` gives for a date under the pattern `%Y-%m-%d`.
pub uninterp spec fn date_text(year: int, month: int, day: int) -> Seq<char>;

/// What `chrono::NaiveDate::parse_from_str` reads from `text` under the
/// pattern `%Y-%m-%d`: the year, month and day of a date, or the text of the
/// error.
pub uninterp spec fn parsed_date(text: Seq<char>) -> Result<(int, int, int), Seq<char>>;

/// What `chrono::DateTime::parse_from_rfc3339` reads from `text`: the seconds
/// since 1970-01-01 00:00:00 UTC and the nanoseconds past them of an instant,
/// or the text of the error.
pub uninterp spec fn parsed_instant(text: Seq<char>) -> Result<(int, int), Seq<char>>;

/// `chrono::DateTime::from_timestamp`: whether it returns an instant for
/// `seconds` and `nanos`. It returns none where the seconds are out of its
/// range or the nanoseconds are invalid.
#[verifier::external_body]
fn utc_instant_exists(seconds: i64, nanos: u32) -> (exists: bool)
    ensures
        exists == is_utc_instant(seconds as int, nanos as int),
{
    chrono::DateTime::from_timestamp(seconds, nanos).is_some()
}

/// `chrono::DateTime::format` with the pattern `%Y-%m-%d %H:%M:%S UTC`, on
/// the instant that `chrono::DateTime::from_timestamp` returns for `seconds`
/// and `nanos`: the text depends on the instant alone.
#[verifier::external_body]
fn utc_text_of(seconds: i64, nanos: u32) -> (text: String)
    requires
        is_utc_instant(seconds as int, nanos as int),
    ensures
        text@ == utc_text(seconds as int, nanos as int),
{
    match chrono::DateTime::from_timestamp(seconds, nanos) {
        Some(instant) => instant.format("%Y-%m-%d %H:%M:%S UTC").to_string(),
        None => String::new(),
    }
}

/// `chrono::NaiveDate::from_ymd_opt`: whether it returns a date for `year`,
/// `month` and `day`. It returns none where the day does not exist in the
/// calendar or the year is out of its range.
#[verifier::external_body]
fn calendar_date_exists(year: i32, month: u32, day: u32) -> (exists: bool)
    ensures
        exists == is_calendar_date(year as int, month as int, day as int),
{
    chrono::NaiveDate::from_ymd_opt(year, month, day).is_some()
}

/// `chrono::NaiveDate::format` with the pattern `%Y-%m-%d`, on the date that
/// `chrono::NaiveDate::from_ymd_opt` returns for `year`, `month` and `day`:
/// the text depends on the date alone.
#[verifier::external_body]
fn date_text_of(year: i32, month: u32, day: u32) -> (text: String)
    requires
        is_calendar_date(year as int, month as int, day as int),
    ensures
        text@ == date_text(year as int, month as int, day as int),
{
    match chrono::NaiveDate::from_ymd_opt(year, month, day) {
        Some(date) => date.format("%Y-%m-%d").to_string(),
        None => String::new(),
    }
}

/// `chrono::NaiveDate::parse_from_str` with the pattern `%Y-%m-%d`: the
/// year, month and day of the date that it reads from `text`, or the text of
/// its error. What it reads depends on `text` alone, and what it returns is
/// a date of the calendar.
#[verifier::external_body]
fn parse_date_text(text: &str) -> (parsed: Result<(i32, u32, u32), String>)
    ensures
        match parsed {
            Ok((year, month, day)) => parsed_date(text@) == Ok::<(int, int, int), Seq<char>>(
                (year as int, month as int, day as int),
            ) && is_calendar_date(year as int, month as int, day as int),
            Err(e) => parsed_date(text@) == Err::<(int, int, int), Seq<char>>(e@),
        },
{
    match chrono::NaiveDate::parse_from_str(text, "%Y-%m-%d") {
        Ok(date) => Ok(
            (
                chrono::Datelike::year(&date),
                chrono::Datelike::month(&date),
                chrono::Datelike::day(&date),
            ),
        ),
        Err(e) => Err(e.to_string()),
    }
}

/// `chrono::DateTime::parse_from_rfc3339`: the seconds and nanoseconds of
/// the instant that it reads from `text`, or the text of its error. What it
/// reads depends on `text` alone, and `chrono::DateTime::from_timestamp`
/// returns that instant for those seconds and nanoseconds.
#[verifier::external_body]
fn parse_instant_text(text: &str) -> (parsed: Result<(i64, u32), String>)
    ensures
        match parsed {
            Ok((seconds, nanos)) => parsed_instant(text@) == Ok::<(int, int), Seq<char>>(
                (seconds as int, nanos as int),
            ) && is_utc_instant(seconds as int, nanos as int),
            Err(e) => parsed_instant(text@) == Err::<(int, int), Seq<char>>(e@),
        },
{
    match chrono::DateTime::parse_from_rfc3339(text) {
        Ok(instant) => Ok((instant.timestamp(), instant.timestamp_subsec_nanos())),
        Err(e) => Err(e.to_string()),
    }
}

/// An instant: whole seconds since 1970-01-01 00:00:00 UTC and the
/// nanoseconds past that second. Every value is an instant that `chrono`
/// can hold.
#[derive(Clone, Copy, Debug, PartialEq, Eq, Structural)]
pub struct Timestamp {
    pub(crate) seconds: i64,
    pub(crate) nanos: u32,
}

impl View for Timestamp {
    type V = Timestamp;

    open spec fn view(&self) -> Timestamp {
        *self
    }
}

impl DeepView for Timestamp {
    type V = Timestamp;

    open spec fn deep_view(&self) -> Timestamp {
        *self
    }
}

impl Timestamp {
    #[verifier::type_invariant]
    spec fn well_formed(self) -> bool {
        is_utc_instant(self.seconds as int, self.nanos as int)
    }

    /// The whole seconds since 1970-01-01 00:00:00 UTC.
    pub closed spec fn unix_seconds(self) -> int {
        self.seconds as int
    }

    /// The nanoseconds past the whole second.
    pub closed spec fn subsec_nanos(self) -> int {
        self.nanos as int
    }

    /// The instant with these seconds and nanoseconds.
    pub closed spec fn at(seconds: int, nanos: int) -> Timestamp {
        Timestamp { seconds: seconds as i64, nanos: nanos as u32 }
    }

    /// `self` is strictly earlier than `other`.
    pub open spec fn precedes(self, other: Timestamp) -> bool {
        self.unix_seconds() < other.unix_seconds() || (self.unix_seconds() == other.unix_seconds()
            && self.subsec_nanos() < other.subsec_nanos())
    }

    /// The text of this instant, as in `2024-01-15 09:30:00 UTC`.
    pub open spec fn text(self) -> Seq<char> {
        utc_text(self.unix_seconds(), self.subsec_nanos())
    }

    /// Two instants with the same seconds and nanoseconds are one instant.
    pub proof fn lemma_same_instant(self, other: Timestamp)
        requires
            self.unix_seconds() == other.unix_seconds(),
            self.subsec_nanos() == other.subsec_nanos(),
        ensures
            self == other,
    {
    }

    /// The instant `nanos` nanoseconds past `seconds` seconds since
    /// 1970-01-01 00:00:00 UTC, if there is such an instant.
    pub fn from_unix(seconds: i64, nanos: u32) -> (made: Option<Timestamp>)
        ensures
            made is Some == is_utc_instant(seconds as int, nanos as int),
            made matches Some(t) ==> t == Timestamp::at(seconds as int, nanos as int)
                && t.unix_seconds() == seconds && t.subsec_nanos() == nanos,
    {
        if utc_instant_exists(seconds, nanos) {
            Some(Timestamp { seconds, nanos })
        } else {
            None
        }
    }

    /// The whole seconds since 1970-01-01 00:00:00 UTC.
    pub fn seconds(&self) -> (seconds: i64)
        ensures
            seconds == self.unix_seconds(),
    {
        self.seconds
    }

    /// The nanoseconds past the whole second.
    pub fn nanos(&self) -> (nanos: u32)
        ensures
            nanos == self.subsec_nanos(),
    {
        self.nanos
    }

    /// The instant that `text` states in the notation of RFC 3339, as in
    /// `2024-01-15T09:30:00Z`.
    pub fn parse(text: &str) -> (result: Result<Timestamp, ChronicleError>)
        ensures
            match result {
                Ok(t) => parsed_instant(text@) == Ok::<(int, int), Seq<char>>(
                    (t.unix_seconds(), t.subsec_nanos()),
                ),
                Err(e) => parsed_instant(text@) is Err && e@ == ChronicleErrorView::Config(
                    "Invalid since timestamp: "@ + parsed_instant(text@)->Err_0,
                ),
            },
    {
        match parse_instant_text(text) {
            Ok((seconds, nanos)) => Ok(Timestamp { seconds, nanos }),
            Err(e) => Err(
                ChronicleError::Config(
                    String::from_str("Invalid since timestamp: ").concat(e.as_str()),
                ),
            ),
        }
    }

    /// The instant `hours` hours before this one, if there is such an instant.
    pub fn hours_before(&self, hours: u32) -> (earlier: Option<Timestamp>)
        ensures
            earlier is Some == (self.unix_seconds() - 3600 * hours >= i64::MIN && is_utc_instant(
                self.unix_seconds() - 3600 * hours,
                self.subsec_nanos(),
            )),
            earlier matches Some(t) ==> t == Timestamp::at(
                self.unix_seconds() - 3600 * hours,
                self.subsec_nanos(),
            ),
    {
        let span: i64 = 3600 * (hours as i64);
        if self.seconds < i64::MIN + span {
            return None;
        }
        Timestamp::from_unix(self.seconds - span, self.nanos)
    }

    /// Whether `self` is strictly earlier than `other`.
    pub fn is_before(&self, other: &Timestamp) -> (b: bool)
        ensures
            b == self.precedes(*other),
    {
        self.seconds < other.seconds || (self.seconds == other.seconds && self.nanos < other.nanos)
    }

    /// The text of this instant, as in `2024-01-15 09:30:00 UTC`.
    pub fn format(&self) -> (text: String)
        ensures
            text@ == self.text(),
    {
        proof {
            use_type_invariant(self);
        }
        utc_text_of(self.seconds, self.nanos)
    }
}

/// A day of the calendar. Every value is a date that `chrono` can hold.
#[derive(Clone, Copy, Debug, PartialEq, Eq, Structural)]
pub struct Date {
    pub(crate) year: i32,
    pub(crate) month: u32,
    pub(crate) day: u32,
}

impl View for Date {
    type V = Date;

    open spec fn view(&self) -> Date {
        *self
    }
}

impl Date {
    #[verifier::type_invariant]
    spec fn well_formed(self) -> bool {
        is_calendar_date(self.year as int, self.month as int, self.day as int)
    }

    pub closed spec fn year_number(self) -> int {
        self.year as int
    }

    /// The month, counted from one.
    pub closed spec fn month_number(self) -> int {
        self.month as int
    }

    /// The day of the month, counted from one.
    pub closed spec fn day_number(self) -> int {
        self.day as int
    }

    /// The text of this date, as in `2024-01-15`.
    pub open spec fn text(self) -> Seq<char> {
        date_text(self.year_number(), self.month_number(), self.day_number())
    }

    /// The day `day` of the month `month` of the year `year`, if there is
    /// such a day.
    pub fn from_ymd(year: i32, month: u32, day: u32) -> (made: Option<Date>)
        ensures
            made is Some == is_calendar_date(year as int, month as int, day as int),
            made matches Some(d) ==> d.year_number() == year && d.month_number() == month
                && d.day_number() == day,
    {
        if calendar_date_exists(year, month, day) {
            Some(Date { year, month, day })
        } else {
            None
        }
    }

    /// The date that `text` states as year, month and day, as in `2024-01-15`.
    pub fn parse(text: &str) -> (result: Result<Date, ChronicleError>)
        ensures
            match result {
                Ok(d) => parsed_date(text@) == Ok::<(int, int, int), Seq<char>>(
                    (d.year_number(), d.month_number(), d.day_number()),
                ),
                Err(e) => parsed_date(text@) is Err && e@ == ChronicleErrorView::Config(
                    "Invalid date format: "@ + parsed_date(text@)->Err_0,
                ),
            },
    {
        match parse_date_text(text) {
            Ok((year, month, day)) => Ok(Date { year, month, day }),
            Err(e) => Err(
                ChronicleError::Config(
                    String::from_str("Invalid date format: ").concat(e.as_str()),
                ),
            ),
        }
    }

    pub fn year(&self) -> (year: i32)
        ensures
            year == self.year_number(),
    {
        self.year
    }

    /// The month, counted from one.
    pub fn month(&self) -> (month: u32)
        ensures
            month == self.month_number(),
    {
        self.month
    }

    /// The day of the month, counted from one.
    pub fn day(&self) -> (day: u32)
        ensures
            day == self.day_number(),
    {
        self.day
    }

    /// The text of this date, as in `2024-01-15`.
    pub fn format(&self) -> (text: String)
        ensures
            text@ == self.text(),
    {
        proof {
            use_type_invariant(self);
        }
        date_text_of(self.year, self.month, self.day)
    }
}

} // verus!
