//! The elapsed-time computation and its formatters.
//!
//! `elapsed` measures the whole days strictly between two ordered
//! calendar dates and decomposes them into years, months, a day
//! remainder, and a total day count; `Duration::format` renders the
//! result in one of four modes.

use crate::date::CalendarDate;
use crate::date::spec_date_span;
use crate::date::spec_day_number;
use crate::date::spec_days_in_month;
use crate::date::spec_next_day;
use crate::date::day_number;
use crate::date::days_in_month;
use crate::date::lemma_date_span_counts_day_numbers;
use crate::date::lemma_day_number_le;
use crate::date::lemma_day_number_next;
use vstd::prelude::*;

verus! {

/// Year counts are signed, as in the date type.
pub type YearImpl = i32;

/// Month counts are unsigned.
pub type MonthImpl = u32;

/// Day counts are unsigned.
pub type DayImpl = u32;

/// Selects which rendering of a duration `Duration::format` produces.
pub enum FormatType {
    Day,
    YearMonth,
    YearDay,
    Default,
}

/// Clamps a count at zero.
pub open spec fn clamp0(x: int) -> int {
    if x < 0 {
        0
    } else {
        x
    }
}

/// Months strictly between the two dates, the from-month and the
/// to-month themselves excluded; not yet normalized below twelve.
pub open spec fn spec_month_component(from: CalendarDate, to: CalendarDate) -> int {
    if from.year == to.year {
        clamp0(to.month - from.month - 1)
    } else {
        clamp0(12 - from.month) + clamp0(to.month - 1)
    }
}

/// Years strictly between the two calendar years.
pub open spec fn spec_year_component(from: CalendarDate, to: CalendarDate) -> int {
    clamp0(to.year - from.year - 1)
}

/// The month count after carrying a full twelve months into the years.
pub open spec fn spec_months_final(from: CalendarDate, to: CalendarDate) -> int {
    if spec_month_component(from, to) >= 12 {
        spec_month_component(from, to) - 12
    } else {
        spec_month_component(from, to)
    }
}

/// The year count after carrying a full twelve months into the years.
pub open spec fn spec_years_final(from: CalendarDate, to: CalendarDate) -> int {
    if spec_month_component(from, to) >= 12 {
        spec_year_component(from, to) + 1
    } else {
        spec_year_component(from, to)
    }
}

/// The day remainder: days strictly between the day-of-month values,
/// within one month, or across the month ends.
pub open spec fn spec_day_component(from: CalendarDate, to: CalendarDate) -> int {
    if from.year == to.year && from.month == to.month {
        clamp0(to.day - from.day - 1)
    } else {
        clamp0(spec_days_in_month(from.year as int, from.month as int) - from.day) + clamp0(
            to.day - 1,
        )
    }
}

/// Whole days strictly between the two dates along the time line.
pub open spec fn spec_elapsed_days(from: CalendarDate, to: CalendarDate) -> int {
    clamp0(spec_day_number(to) - 1 - spec_day_number(from))
}

/// The verbatim message of an ordering failure.
pub open spec fn spec_ordering_error() -> Seq<char> {
    "'from' date should be less or equal to 'to' date"@
}

/// Counts the months strictly between the two dates.
fn month_difference(from: &CalendarDate, to: &CalendarDate) -> (r: u32)
    requires
        from.wf(),
        to.wf(),
    ensures
        r == spec_month_component(*from, *to),
        r <= 22,
{
    if from.year == to.year {
        if to.month > from.month {
            to.month - from.month - 1
        } else {
            0
        }
    } else {
        (12 - from.month) + (to.month - 1)
    }
}

/// Counts the day remainder of the difference.
fn day_difference(from: &CalendarDate, to: &CalendarDate) -> (r: u32)
    requires
        from.wf(),
        to.wf(),
    ensures
        r == spec_day_component(*from, *to),
        r <= 61,
{
    if from.year == to.year && from.month == to.month {
        if to.day > from.day {
            to.day - from.day - 1
        } else {
            0
        }
    } else {
        let from_month_days = days_in_month(from.year, from.month);
        let rest_of_from_month = if from_month_days > from.day {
            from_month_days - from.day
        } else {
            0
        };
        rest_of_from_month + (to.day - 1)
    }
}

/// The elapsed time between two dates, decomposed into years, months,
/// a day remainder, and a total day count.
#[derive(Debug)]
pub struct Duration {
    year: YearImpl,
    month: MonthImpl,
    day: DayImpl,
    total_days: DayImpl,
}

impl Duration {
    /// The year component.
    pub closed spec fn spec_years(self) -> int {
        self.year as int
    }

    /// The month component.
    pub closed spec fn spec_months(self) -> int {
        self.month as int
    }

    /// The day-remainder component.
    pub closed spec fn spec_days(self) -> int {
        self.day as int
    }

    /// The total day count.
    pub closed spec fn spec_total_days(self) -> int {
        self.total_days as int
    }

    /// Every duration that the diff operation hands out keeps its
    /// components inside these bounds.
    pub closed spec fn wf(self) -> bool {
        &&& 0 <= self.year <= 10000
        &&& 0 <= self.month < 12
        &&& 0 <= self.day <= 61
        &&& 0 <= self.total_days <= 4000000
    }
}

/// The decimal digit characters.
pub open spec fn spec_digit_char(d: int) -> char {
    if d == 0 {
        '0'
    } else if d == 1 {
        '1'
    } else if d == 2 {
        '2'
    } else if d == 3 {
        '3'
    } else if d == 4 {
        '4'
    } else if d == 5 {
        '5'
    } else if d == 6 {
        '6'
    } else if d == 7 {
        '7'
    } else if d == 8 {
        '8'
    } else {
        '9'
    }
}

/// The usual decimal rendering of a non-negative number, most
/// significant digit first, no leading zeros.
pub open spec fn spec_decimal(n: int) -> Seq<char>
    decreases n,
{
    if n < 10 {
        seq![spec_digit_char(n)]
    } else {
        spec_decimal(n / 10) + seq![spec_digit_char(n % 10)]
    }
}

/// The pluralizing renderer of one count: nothing for zero, the
/// singular wording for one, the plural wording otherwise.
pub open spec fn spec_pluralize(n: int, singular: Seq<char>, plural: Seq<char>) -> Seq<char> {
    if n == 0 {
        Seq::empty()
    } else if n == 1 {
        "1 "@ + singular
    } else {
        spec_decimal(n) + " "@ + plural
    }
}

/// The canonical rendering of an empty duration.
pub open spec fn spec_zero_days() -> Seq<char> {
    "0 days"@
}

/// Joins two tokens with one space, dropping an empty side.
pub open spec fn spec_join_tokens(left: Seq<char>, right: Seq<char>) -> Seq<char> {
    if left.len() == 0 {
        right
    } else if right.len() == 0 {
        left
    } else {
        left + " "@ + right
    }
}

/// The `Day` rendering: the total day count alone.
pub open spec fn spec_format_days(total_days: int) -> Seq<char> {
    if total_days == 0 {
        spec_zero_days()
    } else {
        spec_pluralize(total_days, "day"@, "days"@)
    }
}

/// The `YearMonth` rendering: the calendar decomposition.
pub open spec fn spec_format_year_month(years: int, months: int, days: int) -> Seq<char> {
    if years == 0 && months == 0 && days == 0 {
        spec_zero_days()
    } else {
        spec_join_tokens(
            spec_join_tokens(
                spec_pluralize(years, "year"@, "years"@),
                spec_pluralize(months, "month"@, "months"@),
            ),
            spec_pluralize(days, "day"@, "days"@),
        )
    }
}

/// The `YearDay` rendering: a breakdown of the total day count by a
/// fixed 365-day year, deliberately blind to leap years.
pub open spec fn spec_format_year_day(total_days: int) -> Seq<char> {
    if total_days == 0 {
        spec_zero_days()
    } else {
        let years = total_days / 365;
        let days = total_days % 365;
        if years == 0 {
            spec_pluralize(days, "day"@, "days"@)
        } else if days == 0 {
            spec_pluralize(years, "year"@, "years"@)
        } else {
            spec_pluralize(years, "year"@, "years"@) + " "@ + spec_pluralize(days, "day"@, "days"@)
        }
    }
}

/// The `Default` rendering: the calendar decomposition, then the total
/// day count in parentheses; the parenthetical is dropped for spans
/// without full months or years and for empty spans.
pub open spec fn spec_format_default(years: int, months: int, days: int, total_days: int) -> Seq<
    char,
> {
    let front = spec_format_year_month(years, months, days);
    if (years == 0 && months == 0) || total_days == 0 {
        front
    } else {
        front + " ("@ + spec_format_days(total_days) + ")"@
    }
}

/// What `Duration::format` renders for each mode.
pub open spec fn spec_format(
    years: int,
    months: int,
    days: int,
    total_days: int,
    format_type: FormatType,
) -> Seq<char> {
    match format_type {
        FormatType::Day => spec_format_days(total_days),
        FormatType::YearMonth => spec_format_year_month(years, months, days),
        FormatType::YearDay => spec_format_year_day(total_days),
        FormatType::Default => spec_format_default(years, months, days, total_days),
    }
}

/// One decimal digit as text.
fn digit_str(d: u32) -> (r: &'static str)
    requires
        d < 10,
    ensures
        r@ == seq![spec_digit_char(d as int)],
{
    let r: &'static str = if d == 0 {
        "0"
    } else if d == 1 {
        "1"
    } else if d == 2 {
        "2"
    } else if d == 3 {
        "3"
    } else if d == 4 {
        "4"
    } else if d == 5 {
        "5"
    } else if d == 6 {
        "6"
    } else if d == 7 {
        "7"
    } else if d == 8 {
        "8"
    } else {
        "9"
    };
    proof {
        reveal_strlit("0");
        reveal_strlit("1");
        reveal_strlit("2");
        reveal_strlit("3");
        reveal_strlit("4");
        reveal_strlit("5");
        reveal_strlit("6");
        reveal_strlit("7");
        reveal_strlit("8");
        reveal_strlit("9");
        assert(r@ =~= seq![spec_digit_char(d as int)]);
    }
    r
}

/// Renders a number in decimal.
fn decimal_string(n: u32) -> (r: String)
    ensures
        r@ == spec_decimal(n as int),
    decreases n,
{
    if n < 10 {
        String::from_str(digit_str(n))
    } else {
        let mut prefix = decimal_string(n / 10);
        prefix.append(digit_str(n % 10));
        prefix
    }
}

/// Renders one count with its unit: `""` for zero, `"1 {singular}"`
/// for one, `"{value} {plural}"` otherwise.
fn format_num(value: i32, suffix_single: &str, suffix_plural: &str) -> (r: String)
    requires
        0 <= value,
    ensures
        r@ == spec_pluralize(value as int, suffix_single@, suffix_plural@),
{
    if value == 0 {
        String::new()
    } else if value == 1 {
        let mut s = String::from_str("1 ");
        s.append(suffix_single);
        s
    } else {
        let mut s = decimal_string(value as u32);
        s.append(" ");
        s.append(suffix_plural);
        s
    }
}

/// Joins two rendered tokens with one space, dropping an empty side.
fn join_tokens(left: String, right: String) -> (r: String)
    ensures
        r@ == spec_join_tokens(left@, right@),
{
    if left.as_str().unicode_len() == 0 {
        right
    } else if right.as_str().unicode_len() == 0 {
        left
    } else {
        let mut s = left;
        s.append(" ");
        s.append(right.as_str());
        s
    }
}

/// Renders the total day count alone.
fn format_days(total_days: u32) -> (r: String)
    requires
        total_days <= 4000000,
    ensures
        r@ == spec_format_days(total_days as int),
{
    if total_days == 0 {
        String::from_str("0 days")
    } else {
        format_num(total_days as i32, "day", "days")
    }
}

/// Renders the calendar decomposition.
fn format_year_month(duration: &Duration) -> (r: String)
    requires
        duration.wf(),
    ensures
        r@ == spec_format_year_month(
            duration.spec_years(),
            duration.spec_months(),
            duration.spec_days(),
        ),
{
    if duration.year == 0 && duration.month == 0 && duration.day == 0 {
        String::from_str("0 days")
    } else {
        let years_token = format_num(duration.year, "year", "years");
        let months_token = format_num(duration.month as i32, "month", "months");
        let days_token = format_num(duration.day as i32, "day", "days");
        join_tokens(join_tokens(years_token, months_token), days_token)
    }
}

/// Renders the 365-day-year breakdown of the total day count.
fn format_year_day(duration: &Duration) -> (r: String)
    requires
        duration.wf(),
    ensures
        r@ == spec_format_year_day(duration.spec_total_days()),
{
    if duration.total_days == 0 {
        String::from_str("0 days")
    } else {
        let years: u32 = duration.total_days / 365;
        let days: u32 = duration.total_days % 365;
        if years == 0 {
            format_num(days as i32, "day", "days")
        } else if days == 0 {
            format_num(years as i32, "year", "years")
        } else {
            let mut s = format_num(years as i32, "year", "years");
            s.append(" ");
            let days_token = format_num(days as i32, "day", "days");
            s.append(days_token.as_str());
            s
        }
    }
}

/// Renders the calendar decomposition with the parenthesized total.
fn format_default(duration: &Duration) -> (r: String)
    requires
        duration.wf(),
    ensures
        r@ == spec_format_default(
            duration.spec_years(),
            duration.spec_months(),
            duration.spec_days(),
            duration.spec_total_days(),
        ),
{
    let front = format_year_month(duration);
    if (duration.year == 0 && duration.month == 0) || duration.total_days == 0 {
        front
    } else {
        let mut s = front;
        s.append(" (");
        let days_part = format_days(duration.total_days);
        s.append(days_part.as_str());
        s.append(")");
        s
    }
}

impl Duration {
    /// Renders the duration in the selected mode.
    pub fn format(&self, format_type: &FormatType) -> (r: String)
        requires
            self.wf(),
        ensures
            r@ == spec_format(
                self.spec_years(),
                self.spec_months(),
                self.spec_days(),
                self.spec_total_days(),
                *format_type,
            ),
    {
        match format_type {
            FormatType::Day => format_days(self.total_days),
            FormatType::YearMonth => format_year_month(self),
            FormatType::Default => format_default(self),
            FormatType::YearDay => format_year_day(self),
        }
    }

    /// Renders the duration in the `Default` mode.
    pub fn to_string(&self) -> (r: String)
        requires
            self.wf(),
        ensures
            r@ == spec_format(
                self.spec_years(),
                self.spec_months(),
                self.spec_days(),
                self.spec_total_days(),
                FormatType::Default,
            ),
    {
        self.format(&FormatType::Default)
    }
}

/// Computes the elapsed time between `from` and `to`: the whole days
/// strictly between the two dates, also decomposed into the years,
/// months and days strictly between them on the calendar. Fails
/// exactly when `from` is strictly after `to`.
pub fn elapsed(from: &CalendarDate, to: &CalendarDate) -> (r: Result<Duration, String>)
    requires
        from.wf(),
        to.wf(),
    ensures
        r is Err <==> to.spec_lt(*from),
        r matches Err(message) ==> message@ == spec_ordering_error(),
        r matches Ok(duration) ==> {
            &&& duration.wf()
            &&& duration.spec_years() == spec_years_final(*from, *to)
            &&& duration.spec_months() == spec_months_final(*from, *to)
            &&& duration.spec_days() == spec_day_component(*from, *to)
            &&& duration.spec_total_days() == spec_elapsed_days(*from, *to)
            &&& 0 <= duration.spec_years()
            &&& 0 <= duration.spec_months() < 12
            &&& 0 <= duration.spec_days()
            &&& 0 <= duration.spec_total_days()
        },
{
    if to.lt(from) {
        return Err(String::from_str("'from' date should be less or equal to 'to' date"));
    }
    let mut month = month_difference(from, to);
    let mut year: i32 = if to.year > from.year {
        to.year - from.year - 1
    } else {
        0
    };
    if month >= 12 {
        year = year + 1;
        month = month - 12;
    }
    let from_number = day_number(from);
    let to_number = day_number(to);
    proof {
        lemma_day_number_le(*from, *to);
    }
    let total_days = if to_number > from_number {
        to_number - from_number - 1
    } else {
        0
    };
    Ok(Duration { year, month, day: day_difference(from, to), total_days })
}

/// Diffing a date against itself leaves every component zero, and an
/// all-zero duration renders as `"0 days"` in every mode.
pub proof fn lemma_elapsed_equal_dates(d: CalendarDate, format_type: FormatType)
    requires
        d.wf(),
    ensures
        spec_years_final(d, d) == 0,
        spec_months_final(d, d) == 0,
        spec_day_component(d, d) == 0,
        spec_elapsed_days(d, d) == 0,
        spec_format(0, 0, 0, 0, format_type) == spec_zero_days(),
{
}

/// Diffing a date against the very next day leaves every component
/// zero: neither endpoint counts as elapsed.
pub proof fn lemma_elapsed_adjacent_dates(from: CalendarDate, to: CalendarDate)
    requires
        from.wf(),
        to == spec_next_day(from),
    ensures
        spec_years_final(from, to) == 0,
        spec_months_final(from, to) == 0,
        spec_day_component(from, to) == 0,
        spec_elapsed_days(from, to) == 0,
{
    lemma_day_number_next(from);
}

/// Holding `from` fixed, the total day count never shrinks as `to`
/// moves later.
pub proof fn lemma_total_days_monotone(from: CalendarDate, to1: CalendarDate, to2: CalendarDate)
    requires
        from.wf(),
        to1.wf(),
        to2.wf(),
        to1.spec_le(to2),
    ensures
        spec_elapsed_days(from, to1) <= spec_elapsed_days(from, to2),
{
    lemma_day_number_le(to1, to2);
}

/// The total day count computed from day numbers equals the count of
/// calendar days crossed walking from `from` to `to` one day at a
/// time, less one, clamped at zero.
pub proof fn lemma_total_days_counts_days_crossed(from: CalendarDate, to: CalendarDate)
    requires
        from.wf(),
        to.wf(),
        from.spec_le(to),
    ensures
        spec_elapsed_days(from, to) == clamp0(spec_date_span(from, to) - 1),
{
    lemma_date_span_counts_day_numbers(from, to);
}

} // verus!
