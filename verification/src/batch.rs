//! Batch runs over a range of dates: the progress of a batch and its
//! overall result.

use vstd::prelude::*;
use chrono::Datelike;
use crate::text::{concat3, from_chars, split_char, split_on, to_chars, views};

verus! {

/// The progress of a batch of runs.
#[derive(Debug)]
pub struct BatchProgress {
    pub current: usize,
    pub total: usize,
    pub current_date: String,
    pub passed: usize,
    pub failed: usize,
    pub errors: usize,
}

impl BatchProgress {
    /// The progress of a batch of `total` runs before the first of them.
    pub fn new(total: usize) -> (r: Self)
        ensures
            r.current == 0,
            r.total == total,
            r.current_date@ == Seq::<char>::empty(),
            r.passed == 0,
            r.failed == 0,
            r.errors == 0,
    {
        Self { current: 0, total, current_date: String::new(), passed: 0, failed: 0, errors: 0 }
    }

    /// Moves on to the run for `date`.
    pub fn advance(&mut self, date: &str)
        requires
            old(self).current < usize::MAX,
        ensures
            final(self).current == old(self).current + 1,
            final(self).current_date@ == date@,
            final(self).total == old(self).total,
            final(self).passed == old(self).passed,
            final(self).failed == old(self).failed,
            final(self).errors == old(self).errors,
    {
        self.current = self.current + 1;
        self.current_date = date.to_owned();
    }

    /// Counts the run that ended with `exit_code`: code 0 is a run whose
    /// tests all passed, code 1 one with failed tests, any other code an
    /// error of the run itself.
    pub fn record_result(&mut self, exit_code: i32)
        requires
            old(self).passed < usize::MAX,
            old(self).failed < usize::MAX,
            old(self).errors < usize::MAX,
        ensures
            final(self).passed == old(self).passed + if exit_code == 0 {
                1int
            } else {
                0int
            },
            final(self).failed == old(self).failed + if exit_code == 1 {
                1int
            } else {
                0int
            },
            final(self).errors == old(self).errors + if exit_code != 0 && exit_code != 1 {
                1int
            } else {
                0int
            },
            final(self).current == old(self).current,
            final(self).total == old(self).total,
            final(self).current_date == old(self).current_date,
    {
        if exit_code == 0 {
            self.passed = self.passed + 1;
        } else if exit_code == 1 {
            self.failed = self.failed + 1;
        } else {
            self.errors = self.errors + 1;
        }
    }

    /// The exit code of the whole batch: 2 where a run ended in an error,
    /// else 1 where a run had failed tests, else 0.
    pub fn exit_code(&self) -> (r: i32)
        ensures
            r == if self.errors > 0 {
                2i32
            } else if self.failed > 0 {
                1i32
            } else {
                0i32
            },
    {
        if self.errors > 0 {
            2
        } else if self.failed > 0 {
            1
        } else {
            0
        }
    }
}

/// The exit code of a run with functional and performance tests: 0 where
/// both passed, 2 where either ended in an error, else 1.
pub fn combine_exit_codes(func_exit: i32, perf_exit: i32) -> (r: i32)
    ensures
        r == if func_exit == 0 && perf_exit == 0 {
            0i32
        } else if func_exit == 2 || perf_exit == 2 {
            2i32
        } else {
            1i32
        },
{
    if func_exit == 0 && perf_exit == 0 {
        0
    } else if func_exit == 2 || perf_exit == 2 {
        2
    } else {
        1
    }
}

/// The day that `chrono::NaiveDate::parse_from_str` reads from a text under
/// a format, as its number in the proleptic Gregorian calendar, where
/// January 1 of the year 1 is day 1; nothing where it reports an error.
pub uninterp spec fn date_number(text: Seq<char>, format: Seq<char>) -> Option<i32>;

/// The text that `chrono::NaiveDate` writes for the day with a number; the
/// empty text for a number that no date has.
pub uninterp spec fn date_text(days: i32) -> Seq<char>;

/// `chrono::NaiveDate::parse_from_str`, then `Datelike::num_days_from_ce`:
/// the number of the day that the text names under the format, or nothing
/// where the text does not parse.
#[verifier::external_body]
fn parse_day(text: &str, format: &str) -> (r: Option<i32>)
    ensures
        r == date_number(text@, format@),
{
    chrono::NaiveDate::parse_from_str(text, format).ok().map(|d| d.num_days_from_ce())
}

/// `chrono::NaiveDate::from_num_days_from_ce_opt`, then the date's
/// `to_string`: the text of the day with the number `days`, empty where no
/// date has that number.
#[verifier::external_body]
fn format_day(days: i32) -> (r: String)
    ensures
        r@ == date_text(days),
{
    chrono::NaiveDate::from_num_days_from_ce_opt(days).map(|d| d.to_string()).unwrap_or_default()
}

/// A range of days, both ends included, each day by its number in the
/// proleptic Gregorian calendar.
#[derive(Debug, Clone, Copy, PartialEq, Eq, Structural)]
pub struct DateRange {
    pub start: i32,
    pub end: i32,
}

impl DateRange {
    /// The number of days in the range, both ends included.
    pub fn day_count(&self) -> (r: i64)
        ensures
            r == self.end - self.start + 1,
    {
        self.end as i64 - self.start as i64 + 1
    }

    /// The first day, as a date in the form year-month-day.
    pub fn start_text(&self) -> (r: String)
        ensures
            r@ == date_text(self.start),
    {
        format_day(self.start)
    }

    /// The last day, as a date in the form year-month-day.
    pub fn end_text(&self) -> (r: String)
        ensures
            r@ == date_text(self.end),
    {
        format_day(self.end)
    }
}

/// The text of a day, as a date in the form year-month-day.
pub fn day_text(days: i32) -> (r: String)
    ensures
        r@ == date_text(days),
{
    format_day(days)
}

/// The message for a range that is not of the form start, colon, end.
pub open spec fn range_format_message() -> Seq<char> {
    "Date range must be in START:END format (e.g., 2025-01-01:2025-02-05)"@
}

/// The range that two dates span, given what each reads as and how each is
/// written: both must read as dates, and the end must not lie before the
/// start.
pub open spec fn range_model(
    start_text: Seq<char>,
    end_text: Seq<char>,
    start: Option<i32>,
    end: Option<i32>,
    start_shown: Seq<char>,
    end_shown: Seq<char>,
) -> Result<DateRange, Seq<char>> {
    match start {
        None => Err("Invalid start date '"@ + start_text + "'. Use YYYY-MM-DD format."@),
        Some(a) => match end {
            None => Err("Invalid end date '"@ + end_text + "'. Use YYYY-MM-DD format."@),
            Some(b) => if b < a {
                Err(
                    "End date ("@ + end_shown + ") must be on or after start date ("@
                        + start_shown + ")"@,
                )
            } else {
                Ok(DateRange { start: a, end: b })
            },
        },
    }
}

/// Puts a range together from its two dates, given what each reads as and
/// how each is written.
pub fn range_of(
    start_text: &str,
    end_text: &str,
    start: Option<i32>,
    end: Option<i32>,
    start_shown: &str,
    end_shown: &str,
) -> (r: Result<DateRange, String>)
    ensures
        match (
            r,
            range_model(start_text@, end_text@, start, end, start_shown@, end_shown@),
        ) {
            (Ok(range), Ok(m)) => range == m,
            (Err(e), Err(m)) => e@ == m,
            _ => false,
        },
{
    let a = match start {
        Some(a) => a,
        None => {
            return Err(concat3("Invalid start date '", start_text, "'. Use YYYY-MM-DD format."));
        },
    };
    let b = match end {
        Some(b) => b,
        None => {
            return Err(concat3("Invalid end date '", end_text, "'. Use YYYY-MM-DD format."));
        },
    };
    if b < a {
        let head = concat3("End date (", end_shown, ") must be on or after start date (");
        return Err(concat3(head.as_str(), start_shown, ")"));
    }
    Ok(DateRange { start: a, end: b })
}

/// How a number that may be missing is written: as the date with that
/// number, or not at all.
pub open spec fn shown(day: Option<i32>) -> Seq<char> {
    match day {
        Some(d) => date_text(d),
        None => Seq::<char>::empty(),
    }
}

/// What a text reads as a range of dates: two dates with one colon between
/// them.
pub open spec fn date_range_model(s: Seq<char>) -> Result<DateRange, Seq<char>> {
    let parts = split_on(s, ':');
    if parts.len() != 2 {
        Err(range_format_message())
    } else {
        let start = date_number(parts[0], "%Y-%m-%d"@);
        let end = date_number(parts[1], "%Y-%m-%d"@);
        range_model(parts[0], parts[1], start, end, shown(start), shown(end))
    }
}

/// Reads a range of dates in the form start, colon, end, each a date in the
/// form year-month-day.
pub fn parse_date_range(s: &str) -> (r: Result<DateRange, String>)
    ensures
        match (r, date_range_model(s@)) {
            (Ok(range), Ok(m)) => range == m,
            (Err(e), Err(m)) => e@ == m,
            _ => false,
        },
{
    let parts = split_char(&to_chars(s), ':');
    if parts.len() != 2 {
        return Err(
            "Date range must be in START:END format (e.g., 2025-01-01:2025-02-05)".to_owned(),
        );
    }
    assert(views(parts@)[0] == parts@[0]@);
    assert(views(parts@)[1] == parts@[1]@);
    let start_text = from_chars(&parts[0]);
    let end_text = from_chars(&parts[1]);
    let start = parse_day(start_text.as_str(), "%Y-%m-%d");
    let end = parse_day(end_text.as_str(), "%Y-%m-%d");
    let start_shown = match start {
        Some(d) => format_day(d),
        None => String::new(),
    };
    let end_shown = match end {
        Some(d) => format_day(d),
        None => String::new(),
    };
    range_of(
        start_text.as_str(),
        end_text.as_str(),
        start,
        end,
        start_shown.as_str(),
        end_shown.as_str(),
    )
}

/// The days of a range, in order; none where the end lies before the
/// start.
pub open spec fn days_model(range: DateRange) -> Seq<i32> {
    if range.end < range.start {
        seq![]
    } else {
        Seq::new((range.end - range.start + 1) as nat, |i: int| (range.start + i) as i32)
    }
}

/// All days of a range, in order, both ends included.
pub fn generate_dates(range: &DateRange) -> (r: Vec<i32>)
    ensures
        r@ == days_model(*range),
{
    let mut dates: Vec<i32> = Vec::new();
    let mut current: i64 = range.start as i64;
    let end: i64 = range.end as i64;
    while current <= end
        invariant
            range.start <= current <= end + 1 || (end < range.start && current == range.start),
            end == range.end,
            dates.len() == if end < range.start {
                0
            } else {
                current - range.start
            },
            forall|i: int| 0 <= i < dates.len() ==> dates@[i] == range.start + i,
        decreases end + 1 - current,
    {
        dates.push(current as i32);
        current = current + 1;
    }
    assert(dates@ =~= days_model(*range));
    dates
}

} // verus!
