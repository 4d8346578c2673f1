//! The calendar model: a Gregorian calendar date as a plain
//! (year, month, day) triple, its validity invariant, lexicographic
//! ordering, and the day-number arithmetic that the elapsed-time
//! computation rests on.

use vstd::prelude::*;

verus! {

/// Smallest year a date may carry; the `YYYY-MM-DD` grammar has four
/// year digits, so the representable years are `0` through `9999`.
pub const MIN_YEAR: i32 = 0;

/// Largest year a date may carry.
pub const MAX_YEAR: i32 = 9999;

/// A proleptic Gregorian calendar date with no time component.
#[derive(Clone, Copy, PartialEq, Eq, Structural, Debug)]
pub struct CalendarDate {
    pub year: i32,
    pub month: u32,
    pub day: u32,
}

/// The Gregorian leap-year rule: every fourth year, except century
/// years that are not multiples of 400.
pub open spec fn spec_is_leap_year(year: int) -> bool {
    (year % 4 == 0 && year % 100 != 0) || year % 400 == 0
}

/// Number of days in the given month of the given year.
pub open spec fn spec_days_in_month(year: int, month: int) -> int {
    if month == 2 {
        if spec_is_leap_year(year) {
            29
        } else {
            28
        }
    } else if month == 4 || month == 6 || month == 9 || month == 11 {
        30
    } else {
        31
    }
}

impl CalendarDate {
    /// A date is well formed when the year is representable, the month
    /// is a calendar month, and the day exists in that month.
    pub open spec fn wf(self) -> bool {
        &&& MIN_YEAR <= self.year <= MAX_YEAR
        &&& 1 <= self.month <= 12
        &&& 1 <= self.day <= spec_days_in_month(self.year as int, self.month as int)
    }

    /// Lexicographic order on (year, month, day).
    pub open spec fn spec_le(self, other: CalendarDate) -> bool {
        ||| self.year < other.year
        ||| (self.year == other.year && self.month < other.month)
        ||| (self.year == other.year && self.month == other.month && self.day <= other.day)
    }

    /// Strict lexicographic order on (year, month, day).
    pub open spec fn spec_lt(self, other: CalendarDate) -> bool {
        self.spec_le(other) && self != other
    }

    /// Builds a date, accepting exactly the well-formed triples.
    pub fn new(year: i32, month: u32, day: u32) -> (r: Option<CalendarDate>)
        ensures
            r is Some <==> (CalendarDate { year, month, day }).wf(),
            r matches Some(d) ==> d == (CalendarDate { year, month, day }),
    {
        if MIN_YEAR <= year && year <= MAX_YEAR && 1 <= month && month <= 12 && 1 <= day
            && day <= days_in_month(year, month) {
            Some(CalendarDate { year, month, day })
        } else {
            None
        }
    }

    /// Decides the lexicographic order on dates.
    pub fn le(&self, other: &CalendarDate) -> (r: bool)
        ensures
            r == self.spec_le(*other),
    {
        self.year < other.year || (self.year == other.year && (self.month < other.month || (
        self.month == other.month && self.day <= other.day)))
    }

    /// Decides the strict lexicographic order on dates.
    pub fn lt(&self, other: &CalendarDate) -> (r: bool)
        ensures
            r == self.spec_lt(*other),
    {
        self.year < other.year || (self.year == other.year && (self.month < other.month || (
        self.month == other.month && self.day < other.day)))
    }
}

/// Days in year `year` that fall strictly before month `month`.
pub open spec fn spec_days_before_month(year: int, month: int) -> int
    decreases month,
{
    if month <= 1 {
        0
    } else {
        spec_days_before_month(year, month - 1) + spec_days_in_month(year, month - 1)
    }
}

/// Number of days in the given year: 365, or 366 in a leap year.
pub open spec fn spec_days_in_year(year: int) -> int {
    spec_days_before_month(year, 13)
}

/// Days that fall strictly before year `year`, counting from year 0.
pub open spec fn spec_days_before_year(year: int) -> int
    decreases year,
{
    if year <= 0 {
        0
    } else {
        spec_days_before_year(year - 1) + spec_days_in_year(year - 1)
    }
}

/// Position of a date on the time line: the number of days between
/// year 0's January 1st and the date.
pub open spec fn spec_day_number(d: CalendarDate) -> int {
    spec_days_before_year(d.year as int) + spec_days_before_month(d.year as int, d.month as int)
        + d.day - 1
}

/// Decides the Gregorian leap-year rule.
pub fn is_leap_year(year: i32) -> (r: bool)
    requires
        0 <= year,
    ensures
        r == spec_is_leap_year(year as int),
{
    (year % 4 == 0 && year % 100 != 0) || year % 400 == 0
}

/// Number of days in the given month.
pub fn days_in_month(year: i32, month: u32) -> (r: u32)
    requires
        0 <= year,
        1 <= month <= 12,
    ensures
        r == spec_days_in_month(year as int, month as int),
{
    if month == 2 {
        if is_leap_year(year) {
            29
        } else {
            28
        }
    } else if month == 4 || month == 6 || month == 9 || month == 11 {
        30
    } else {
        31
    }
}

/// The day after the given date on the proleptic Gregorian calendar.
pub open spec fn spec_next_day(d: CalendarDate) -> CalendarDate {
    if d.day < spec_days_in_month(d.year as int, d.month as int) {
        CalendarDate { year: d.year, month: d.month, day: (d.day + 1) as u32 }
    } else if d.month < 12 {
        CalendarDate { year: d.year, month: (d.month + 1) as u32, day: 1 }
    } else {
        CalendarDate { year: (d.year + 1) as i32, month: 1, day: 1 }
    }
}

/// Days strictly before a later month accumulate monotonically.
proof fn lemma_days_before_month_le(year: int, m1: int, m2: int)
    requires
        1 <= m1 <= m2 <= 13,
    ensures
        spec_days_before_month(year, m1) <= spec_days_before_month(year, m2),
    decreases m2,
{
    if m1 < m2 {
        lemma_days_before_month_le(year, m1, m2 - 1);
    }
}

/// Days strictly before a later year accumulate monotonically.
proof fn lemma_days_before_year_le(y1: int, y2: int)
    requires
        0 <= y1 <= y2,
    ensures
        spec_days_before_year(y1) <= spec_days_before_year(y2),
    decreases y2,
{
    if y1 < y2 {
        lemma_days_before_year_le(y1, y2 - 1);
        lemma_days_before_month_le(y2 - 1, 1, 13);
    }
}

/// Every day of a well-formed date falls inside its own year: its day
/// number stays strictly below the first day number of the next year.
proof fn lemma_day_number_within_year(d: CalendarDate)
    requires
        d.wf(),
    ensures
        spec_days_before_year(d.year as int) <= spec_day_number(d),
        spec_day_number(d) < spec_days_before_year(d.year + 1),
{
    lemma_days_before_month_le(d.year as int, 1, d.month as int);
    lemma_days_before_month_le(d.year as int, d.month + 1, 13);
    assert(spec_days_before_month(d.year as int, d.month + 1) == spec_days_before_month(
        d.year as int,
        d.month as int,
    ) + spec_days_in_month(d.year as int, d.month as int));
}

/// The day number respects the strict lexicographic order on dates.
proof fn lemma_day_number_lt(a: CalendarDate, b: CalendarDate)
    requires
        a.wf(),
        b.wf(),
        a.spec_lt(b),
    ensures
        spec_day_number(a) < spec_day_number(b),
{
    if a.year < b.year {
        lemma_day_number_within_year(a);
        lemma_days_before_year_le(a.year + 1, b.year as int);
        lemma_day_number_within_year(b);
    } else if a.month < b.month {
        lemma_days_before_month_le(a.year as int, a.month + 1, b.month as int);
        assert(spec_days_before_month(a.year as int, a.month + 1) == spec_days_before_month(
            a.year as int,
            a.month as int,
        ) + spec_days_in_month(a.year as int, a.month as int));
    }
}

/// The day number respects the lexicographic order on dates; the two
/// orders agree on well-formed dates.
pub proof fn lemma_day_number_le(a: CalendarDate, b: CalendarDate)
    requires
        a.wf(),
        b.wf(),
    ensures
        a.spec_le(b) <==> spec_day_number(a) <= spec_day_number(b),
{
    if a.spec_le(b) {
        if a != b {
            lemma_day_number_lt(a, b);
        }
    } else {
        lemma_day_number_lt(b, a);
    }
}

/// Stepping to the next day raises the day number by exactly one.
pub proof fn lemma_day_number_next(d: CalendarDate)
    requires
        d.wf(),
    ensures
        spec_day_number(spec_next_day(d)) == spec_day_number(d) + 1,
{
    if d.day < spec_days_in_month(d.year as int, d.month as int) {
    } else if d.month < 12 {
        assert(spec_days_before_month(d.year as int, d.month + 1) == spec_days_before_month(
            d.year as int,
            d.month as int,
        ) + spec_days_in_month(d.year as int, d.month as int));
    } else {
        assert(spec_days_before_month(d.year as int, 13) == spec_days_before_month(
            d.year as int,
            12,
        ) + spec_days_in_month(d.year as int, 12));
        assert(spec_days_before_year(d.year + 1) == spec_days_before_year(d.year as int)
            + spec_days_in_year(d.year as int));
        assert(spec_days_before_month(d.year + 1, 1) == 0);
    }
}

/// The next day of a well-formed date is well formed, unless the date
/// is the very last representable one.
proof fn lemma_next_day_wf(d: CalendarDate)
    requires
        d.wf(),
        !(d.year == MAX_YEAR && d.month == 12 && d.day == 31),
    ensures
        spec_next_day(d).wf(),
        d.spec_lt(spec_next_day(d)),
{
}

/// Count of calendar days crossed walking from `from` to `to`, one
/// day at a time.
pub open spec fn spec_date_span(from: CalendarDate, to: CalendarDate) -> int
    decreases to.year - from.year, 13 + to.month - from.month, 32 + to.day - from.day,
        when from.wf() && to.wf() && from.spec_le(to)
    via spec_date_span_decreases
{
    if from == to {
        0
    } else {
        1 + spec_date_span(spec_next_day(from), to)
    }
}

#[via_fn]
proof fn spec_date_span_decreases(from: CalendarDate, to: CalendarDate) {
    if from != to {
        assert(!(from.year == MAX_YEAR && from.month == 12 && from.day == 31));
        lemma_next_day_wf(from);
        lemma_day_number_lt(from, to);
        lemma_day_number_next(from);
        lemma_day_number_le(spec_next_day(from), to);
    }
}

/// Walking from one date to a later one, day by day, crosses exactly
/// as many days as the day numbers of the two dates are apart.
pub proof fn lemma_date_span_counts_day_numbers(from: CalendarDate, to: CalendarDate)
    requires
        from.wf(),
        to.wf(),
        from.spec_le(to),
    ensures
        spec_date_span(from, to) == spec_day_number(to) - spec_day_number(from),
    decreases spec_day_number(to) - spec_day_number(from),
{
    lemma_day_number_le(from, to);
    if from != to {
        assert(!(from.year == MAX_YEAR && from.month == 12 && from.day == 31));
        lemma_next_day_wf(from);
        lemma_day_number_lt(from, to);
        lemma_day_number_next(from);
        lemma_day_number_le(spec_next_day(from), to);
        lemma_date_span_counts_day_numbers(spec_next_day(from), to);
    }
}

/// Counts the days of year `year` that fall strictly before
/// month `month`; at most 31 per month counted.
pub fn days_before_month(year: i32, month: u32) -> (r: u32)
    requires
        0 <= year,
        1 <= month <= 13,
    ensures
        r == spec_days_before_month(year as int, month as int),
        r <= 31 * (month - 1),
{
    let mut acc: u32 = 0;
    let mut m: u32 = 1;
    while m < month
        invariant
            1 <= m <= month <= 13,
            0 <= year,
            acc == spec_days_before_month(year as int, m as int),
            acc <= 31 * (m - 1),
        decreases month - m,
    {
        acc = acc + days_in_month(year, m);
        m = m + 1;
    }
    acc
}

/// Number of days in the given year.
pub fn days_in_year(year: i32) -> (r: u32)
    requires
        0 <= year,
    ensures
        r == spec_days_in_year(year as int),
        r <= 372,
{
    days_before_month(year, 13)
}

/// Counts the days that fall strictly before year `year`.
pub fn days_before_year(year: i32) -> (r: u32)
    requires
        0 <= year <= MAX_YEAR + 1,
    ensures
        r == spec_days_before_year(year as int),
        r <= 372 * year,
{
    let mut acc: u32 = 0;
    let mut y: i32 = 0;
    while y < year
        invariant
            0 <= y <= year <= MAX_YEAR + 1,
            acc == spec_days_before_year(y as int),
            acc <= 372 * y,
        decreases year - y,
    {
        acc = acc + days_in_year(y);
        y = y + 1;
    }
    acc
}

/// Computes the position of a date on the time line.
pub fn day_number(d: &CalendarDate) -> (r: u32)
    requires
        d.wf(),
    ensures
        r == spec_day_number(*d),
        r <= 3720000,
{
    let before_years = days_before_year(d.year);
    let before_months = days_before_month(d.year, d.month);
    before_years + before_months + d.day - 1
}

/// Relies on chrono's `Utc::now`, `DateTime::date_naive` and the
/// `Datelike` accessors of `NaiveDate`: the current date by the system
/// clock, whose components chrono keeps a valid proleptic Gregorian
/// date. chrono's `Utc::now` itself panics on a system clock set
/// before the Unix epoch; it supports no such clock.
#[verifier::external_body]
fn current_date_fields() -> (r: (i32, u32, u32))
    ensures
        1 <= r.1 <= 12,
        1 <= r.2 <= spec_days_in_month(r.0 as int, r.1 as int),
{
    let now = chrono::Utc::now().date_naive();
    (chrono::Datelike::year(&now), chrono::Datelike::month(&now), chrono::Datelike::day(&now))
}

/// The current date by the system clock, when it falls inside the
/// representable year range.
pub fn today() -> (r: Option<CalendarDate>)
    ensures
        r matches Some(d) ==> d.wf(),
{
    let (year, month, day) = current_date_fields();
    CalendarDate::new(year, month, day)
}

} // verus!
