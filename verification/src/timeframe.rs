//! Points in time with their time zone, and the span of an event.

use std::str::FromStr;
use vstd::prelude::*;

verus! {

#[verifier::external_type_specification]
#[verifier::external_body]
pub struct ExJiffZoned(jiff::Zoned);

#[verifier::external_type_specification]
#[verifier::external_body]
pub struct ExJiffError(jiff::Error);

#[verifier::external_type_specification]
#[verifier::external_body]
pub struct ExJiffDate(jiff::civil::Date);

/// `Clone` of `jiff::Zoned`: the copy is the same instant in the same time
/// zone as the value it was made from.
pub assume_specification[ <jiff::Zoned as Clone>::clone ](source: &jiff::Zoned) -> (copy:
    jiff::Zoned)
    ensures
        copy == *source,
;

/// `FromStr` of `jiff::Zoned`, which reads a datetime with its time zone
/// annotation. Whether a text is accepted depends on the time zones known to
/// the machine, so nothing is claimed of the result.
pub assume_specification[ <jiff::Zoned as FromStr>::from_str ](input: &str) -> (parsed: Result<
    jiff::Zoned,
    jiff::Error,
>)
;

/// `Default` of `jiff::Zoned`. Nothing is claimed of the result.
pub assume_specification[ <jiff::Zoned as Default>::default ]() -> (instant: jiff::Zoned)
;

/// `jiff::civil::Date::in_tz`, which places the first instant of a date in the
/// named time zone. It fails for a zone that the machine does not know and
/// for a date at the edge of what can be represented, so nothing is claimed
/// of the result.
pub assume_specification[ jiff::civil::Date::in_tz ](
    date: jiff::civil::Date,
    time_zone_name: &str,
) -> (instant: Result<jiff::Zoned, jiff::Error>)
;

/// An instant in a time zone.
#[derive(Debug, PartialEq, Eq)]
pub struct ZonedTime(pub jiff::Zoned);

impl Clone for ZonedTime {
    fn clone(&self) -> (copy: ZonedTime)
        ensures
            copy == *self,
    {
        ZonedTime(self.0.clone())
    }
}

impl Default for ZonedTime {
    fn default() -> (zoned: ZonedTime) {
        ZonedTime(jiff::Zoned::default())
    }
}

impl FromStr for ZonedTime {
    type Err = jiff::Error;

    /// Reads `text` as an instant with its time zone. Which texts can be
    /// read depends on the time zones that the machine knows, so nothing is
    /// promised of the outcome here; `from_jiff` says what becomes of each
    /// outcome of the reading.
    fn from_str(text: &str) -> (parsed: Result<ZonedTime, jiff::Error>) {
        ZonedTime::from_jiff(jiff::Zoned::from_str(text))
    }
}

impl ZonedTime {
    /// The first instant of `date` in UTC, where it can be represented.
    /// Whether it can depends on the time zones that the machine knows as
    /// well as on the date, so nothing is promised of the outcome here;
    /// `from_jiff` says what becomes of each outcome of the placing.
    pub fn from_date(date: jiff::civil::Date) -> (zoned: Result<ZonedTime, jiff::Error>) {
        ZonedTime::from_jiff(date.in_tz("UTC"))
    }

    /// The instant as text, with its offset and its time zone: the text
    /// that the wrapped value writes when it is displayed.
    pub fn to_string(&self) -> (text: String)
        ensures
            vstd::string::to_string_from_display_ensures::<jiff::Zoned>(&self.0, text),
    {
        self.0.to_string()
    }

    /// What becomes of an instant that was read or placed: the instant that
    /// came out is wrapped as it is, and a failure is handed on as it is.
    pub fn from_jiff(made: Result<jiff::Zoned, jiff::Error>) -> (r: Result<
        ZonedTime,
        jiff::Error,
    >)
        ensures
            match made {
                Ok(instant) => r == Ok::<ZonedTime, jiff::Error>(ZonedTime(instant)),
                Err(error) => r == Err::<ZonedTime, jiff::Error>(error),
            },
    {
        match made {
            Ok(instant) => Ok(ZonedTime(instant)),
            Err(error) => Err(error),
        }
    }
}

/// The span of an event: whether it takes the whole day, and its two ends.
/// A time frame does not change once it is made.
#[derive(Debug)]
pub struct Timeframe {
    all_day: bool,
    start: ZonedTime,
    end: ZonedTime,
}

/// The three values that a time frame is made of.
pub struct TimeframeView {
    pub all_day: bool,
    pub start: ZonedTime,
    pub end: ZonedTime,
}

impl View for Timeframe {
    type V = TimeframeView;

    closed spec fn view(&self) -> TimeframeView {
        TimeframeView { all_day: self.all_day, start: self.start, end: self.end }
    }
}

impl Timeframe {
    /// The time frame from `start` to `end`.
    pub fn new(all_day: bool, start: ZonedTime, end: ZonedTime) -> (timeframe: Timeframe)
        ensures
            timeframe@ == (TimeframeView { all_day, start, end }),
    {
        Timeframe { all_day, start, end }
    }

    /// Whether the event takes the whole day.
    pub fn all_day(&self) -> (all_day: bool)
        ensures
            all_day == self@.all_day,
    {
        self.all_day
    }

    /// When the event starts.
    pub fn start(&self) -> (start: &ZonedTime)
        ensures
            *start == self@.start,
    {
        &self.start
    }

    /// When the event ends.
    pub fn end(&self) -> (end: &ZonedTime)
        ensures
            *end == self@.end,
    {
        &self.end
    }
}

impl Clone for Timeframe {
    fn clone(&self) -> (copy: Timeframe)
        ensures
            copy@ == self@,
    {
        Timeframe { all_day: self.all_day, start: self.start.clone(), end: self.end.clone() }
    }
}

impl Default for Timeframe {
    /// A time frame that is not a whole day and whose two ends are the
    /// default instant.
    fn default() -> (timeframe: Timeframe)
        ensures
            !timeframe@.all_day,
    {
        Timeframe::new(false, ZonedTime::default(), ZonedTime::default())
    }
}

} // verus!
