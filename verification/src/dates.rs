//! Calendar dates, modelled as day numbers in the proleptic Gregorian
//! calendar (January 1 of year 1 is day 1), and spans of them. Day
//! arithmetic — differences and offsets — is then plain integer arithmetic;
//! only the rendering of a day number as calendar text is delegated to an
//! outside calendar library.

use vstd::prelude::*;

use crate::errors::EngineError;

verus! {

/// The lowest day number the engine accepts; safely inside the range the
/// calendar library supports (its own limit is near ±95,700,000).
pub const DAY_MIN: i64 = -95_000_000;

/// The highest day number the engine accepts.
pub const DAY_MAX: i64 = 95_000_000;

/// A calendar date, as its day number: day 1 is January 1 of year 1.
#[derive(Clone, Copy, Debug, PartialEq, Eq, Structural)]
pub struct Date {
    pub day: i64,
}

impl Date {
    /// The date lies in the supported calendar range.
    pub open spec fn wf(self) -> bool {
        DAY_MIN <= self.day <= DAY_MAX
    }

    /// A date from a day number; `None` when the day number lies outside
    /// the supported calendar range.
    pub fn from_day(day: i64) -> (r: Option<Date>)
        ensures
            r is Some <==> DAY_MIN <= day <= DAY_MAX,
            r matches Some(d) ==> d == (Date { day }) && d.wf(),
    {
        if DAY_MIN <= day && day <= DAY_MAX {
            Some(Date { day })
        } else {
            None
        }
    }
}

/// A start/end date pair defining the overall period to divide. Invariant:
/// the end does not precede the start.
#[derive(Clone, Copy, Debug, PartialEq, Eq, Structural)]
pub struct Span {
    pub start: Date,
    pub end: Date,
}

impl Span {
    /// Both dates are in range and the end does not precede the start.
    pub open spec fn wf(self) -> bool {
        self.start.wf() && self.end.wf() && self.start.day <= self.end.day
    }

    /// The number of days from start to end.
    pub open spec fn total_days(self) -> int {
        self.end.day - self.start.day
    }

    /// A validated span. A span whose end precedes its start, or whose dates
    /// are out of the calendar range, is a caller error: `InvalidSpan`.
    pub fn new(start: Date, end: Date) -> (r: Result<Span, EngineError>)
        ensures
            r is Ok <==> (Span { start, end }).wf(),
            r matches Ok(s) ==> s == (Span { start, end }),
            r is Err ==> r->Err_0 == EngineError::InvalidSpan,
    {
        if DAY_MIN <= start.day && start.day <= DAY_MAX && DAY_MIN <= end.day && end.day <= DAY_MAX
            && start.day <= end.day {
            Ok(Span { start, end })
        } else {
            Err(EngineError::InvalidSpan)
        }
    }
}

/// The calendar text (`%Y-%m-%d`) of the date with the given day number.
/// Left uninterpreted: it is fixed by the calendar, not by this crate.
pub uninterp spec fn date_text(day: int) -> Seq<char>;

/// Relies on `chrono::NaiveDate::from_num_days_from_ce_opt`, which accepts
/// every day number in the supported range, and on `NaiveDate`'s `Display`
/// (`%Y-%m-%d`): the rendered text is a function of the day number alone.
#[verifier::external_body]
pub(crate) fn render_date(day: i64) -> (r: String)
    requires
        DAY_MIN <= day <= DAY_MAX,
    ensures
        r@ == date_text(day as int),
{
    let date = chrono::NaiveDate::from_num_days_from_ce_opt(day as i32)
        .expect("day number within the supported calendar range");
    date.to_string()
}

} // verus!
