//! The command vocabulary of the command-line front end: the parsed
//! argument values, the format selector, and the fixed `YYYY-MM-DD`
//! date grammar.

use crate::date::CalendarDate;
use crate::date::today;
use vstd::prelude::*;

verus! {

/// The output format a caller selected on the command line.
#[derive(Debug)]
pub enum SinceFormat {
    Day,
    YearDay,
    YearMonth,
    Default,
}

/// True of the ten decimal digit characters.
pub open spec fn spec_is_digit(c: char) -> bool {
    48 <= c as int <= 57
}

/// Numeric value of a decimal digit character.
pub open spec fn spec_digit_value(c: char) -> int {
    c as int - 48
}

/// The fixed date shape: four digits, a dash, two digits, a dash, two
/// digits, and nothing else.
pub open spec fn spec_date_shape(s: Seq<char>) -> bool {
    &&& s.len() == 10
    &&& spec_is_digit(s[0])
    &&& spec_is_digit(s[1])
    &&& spec_is_digit(s[2])
    &&& spec_is_digit(s[3])
    &&& s[4] == '-'
    &&& spec_is_digit(s[5])
    &&& spec_is_digit(s[6])
    &&& s[7] == '-'
    &&& spec_is_digit(s[8])
    &&& spec_is_digit(s[9])
}

/// The year denoted by the four year digits.
pub open spec fn spec_parsed_year(s: Seq<char>) -> int {
    1000 * spec_digit_value(s[0]) + 100 * spec_digit_value(s[1]) + 10 * spec_digit_value(s[2])
        + spec_digit_value(s[3])
}

/// The month denoted by the two month digits.
pub open spec fn spec_parsed_month(s: Seq<char>) -> int {
    10 * spec_digit_value(s[5]) + spec_digit_value(s[6])
}

/// The day denoted by the two day digits.
pub open spec fn spec_parsed_day(s: Seq<char>) -> int {
    10 * spec_digit_value(s[8]) + spec_digit_value(s[9])
}

/// The date a well-shaped string denotes.
pub open spec fn spec_parsed_date(s: Seq<char>) -> CalendarDate {
    CalendarDate {
        year: spec_parsed_year(s) as i32,
        month: spec_parsed_month(s) as u32,
        day: spec_parsed_day(s) as u32,
    }
}

/// A string is accepted as a date when it has the fixed shape and
/// denotes a date that exists on the calendar.
pub open spec fn spec_date_ok(s: Seq<char>) -> bool {
    spec_date_shape(s) && spec_parsed_date(s).wf()
}

/// The verbatim message of a date-parsing failure.
pub open spec fn spec_parse_error() -> Seq<char> {
    "Date should follow the YYYY-MM-DD format"@
}

/// The message reported when the system clock names a date outside
/// the representable year range.
pub open spec fn spec_clock_error() -> Seq<char> {
    "current date is outside the supported year range"@
}

/// The message rejecting an unknown format word.
pub open spec fn spec_invalid_format_error(s: Seq<char>) -> Seq<char> {
    "invalid format: "@ + s
}

/// The format selected by each of the fixed flag words.
pub open spec fn spec_format_of(s: Seq<char>) -> Option<SinceFormat> {
    if s == "day"@ {
        Option::Some(SinceFormat::Day)
    } else if s == "year-day"@ {
        Option::Some(SinceFormat::YearDay)
    } else if s == "year-month"@ {
        Option::Some(SinceFormat::YearMonth)
    } else if s == "default"@ {
        Option::Some(SinceFormat::Default)
    } else {
        Option::None
    }
}

/// Decides whether a character is a decimal digit.
fn is_digit(c: char) -> (r: bool)
    ensures
        r == spec_is_digit(c),
{
    let v = c as u32;
    48 <= v && v <= 57
}

/// Numeric value of a digit character.
fn digit_value(c: char) -> (r: u32)
    requires
        spec_is_digit(c),
    ensures
        r == spec_digit_value(c),
        r <= 9,
{
    c as u32 - 48
}

/// Compares two strings character by character.
fn str_eq(a: &str, b: &str) -> (r: bool)
    ensures
        r == (a@ == b@),
{
    let a_len = a.unicode_len();
    let b_len = b.unicode_len();
    if a_len != b_len {
        return false;
    }
    let mut i: usize = 0;
    while i < a_len
        invariant
            0 <= i <= a_len,
            a_len == a@.len(),
            b_len == b@.len(),
            a_len == b_len,
            forall|j: int| 0 <= j < i ==> a@[j] == b@[j],
        decreases a_len - i,
    {
        if a.get_char(i) != b.get_char(i) {
            return false;
        }
        i = i + 1;
    }
    proof {
        assert(a@ =~= b@);
    }
    true
}

/// Reads a `YYYY-MM-DD` string, accepting exactly the well-shaped
/// strings that denote a date existing on the calendar.
fn parse_date_str(s: &str) -> (r: Result<CalendarDate, String>)
    ensures
        r is Ok <==> spec_date_ok(s@),
        r matches Ok(d) ==> d == spec_parsed_date(s@) && d.wf(),
        r matches Err(message) ==> message@ == spec_parse_error(),
{
    if s.unicode_len() != 10 {
        return Err(String::from_str("Date should follow the YYYY-MM-DD format"));
    }
    let shape_ok = is_digit(s.get_char(0)) && is_digit(s.get_char(1)) && is_digit(s.get_char(2))
        && is_digit(s.get_char(3)) && s.get_char(4) == '-' && is_digit(s.get_char(5)) && is_digit(
        s.get_char(6),
    ) && s.get_char(7) == '-' && is_digit(s.get_char(8)) && is_digit(s.get_char(9));
    if !shape_ok {
        return Err(String::from_str("Date should follow the YYYY-MM-DD format"));
    }
    let year: u32 = 1000 * digit_value(s.get_char(0)) + 100 * digit_value(s.get_char(1)) + 10
        * digit_value(s.get_char(2)) + digit_value(s.get_char(3));
    let month: u32 = 10 * digit_value(s.get_char(5)) + digit_value(s.get_char(6));
    let day: u32 = 10 * digit_value(s.get_char(8)) + digit_value(s.get_char(9));
    match CalendarDate::new(year as i32, month, day) {
        Some(d) => Ok(d),
        None => Err(String::from_str("Date should follow the YYYY-MM-DD format")),
    }
}

/// Decides whether a string is accepted as a `YYYY-MM-DD` date.
pub fn date_ok(s: &str) -> (r: bool)
    ensures
        r == spec_date_ok(s@),
{
    parse_date_str(s).is_ok()
}

impl SinceFormat {
    /// Selects the format named by one of the fixed flag words.
    pub fn from_str(value: &str) -> (r: Result<SinceFormat, String>)
        ensures
            spec_format_of(value@) matches Some(f) ==> r == Ok::<SinceFormat, String>(f),
            spec_format_of(value@) is None ==> (r matches Err(message) && message@
                == spec_invalid_format_error(value@)),
    {
        if str_eq(value, "day") {
            Ok(SinceFormat::Day)
        } else if str_eq(value, "year-day") {
            Ok(SinceFormat::YearDay)
        } else if str_eq(value, "year-month") {
            Ok(SinceFormat::YearMonth)
        } else if str_eq(value, "default") {
            Ok(SinceFormat::Default)
        } else {
            let mut message = String::from_str("invalid format: ");
            message.append(value);
            Err(message)
        }
    }
}

/// The values of one `since` invocation: the mandatory date, the
/// optional format word, and the optional reference date.
pub struct Since {
    pub date: String,
    pub format: Option<String>,
    pub now: Option<String>,
}

impl Since {
    /// The selected output format; `Default` when no word was given.
    pub fn format(&self) -> (r: Result<SinceFormat, String>)
        ensures
            self.format is None ==> r == Ok::<SinceFormat, String>(SinceFormat::Default),
            self.format matches Some(value) ==> {
                &&& (spec_format_of(value@) matches Some(f) ==> r == Ok::<SinceFormat, String>(f))
                &&& (spec_format_of(value@) is None ==> (r matches Err(message) && message@
                    == spec_invalid_format_error(value@)))
            },
    {
        match &self.format {
            None => Ok(SinceFormat::Default),
            Some(x) => SinceFormat::from_str(x.as_str()),
        }
    }

    /// Reads one date string.
    fn parse_date(&self, date: &str) -> (r: Result<CalendarDate, String>)
        ensures
            r is Ok <==> spec_date_ok(date@),
            r matches Ok(d) ==> d == spec_parsed_date(date@) && d.wf(),
            r matches Err(message) ==> message@ == spec_parse_error(),
    {
        parse_date_str(date)
    }

    /// The date the difference is measured from.
    pub fn get_from(&self) -> (r: Result<CalendarDate, String>)
        ensures
            r is Ok <==> spec_date_ok(self.date@),
            r matches Ok(d) ==> d == spec_parsed_date(self.date@) && d.wf(),
            r matches Err(message) ==> message@ == spec_parse_error(),
    {
        self.parse_date(self.date.as_str())
    }

    /// The date the difference is measured to: the given reference
    /// date, or the current date when none was given.
    pub fn get_to(&self) -> (r: Result<CalendarDate, String>)
        requires
            self.now matches Some(n) ==> spec_date_ok(n@),
        ensures
            self.now matches Some(n) ==> (r matches Ok(d) && d == spec_parsed_date(n@) && d.wf()),
            self.now is None ==> (r matches Ok(d) ==> d.wf()),
            self.now is None ==> (r matches Err(message) ==> message@ == spec_clock_error()),
    {
        match &self.now {
            None => match today() {
                Some(d) => Ok(d),
                None => Err(String::from_str("current date is outside the supported year range")),
            },
            Some(now_value) => self.parse_date(now_value.as_str()),
        }
    }
}

/// One parsed command line: for now only the `since` command exists.
pub enum Command {
    Since(Since),
}

/// A parsed command line, as the front end hands it over.
pub struct Arguments {
    args: Command,
}

impl Arguments {
    /// The command the arguments carry.
    pub closed spec fn spec_command(&self) -> Command {
        self.args
    }

    /// Wraps an already parsed command.
    pub fn new(command: Command) -> (r: Arguments)
        ensures
            r.spec_command() == command,
    {
        Arguments { args: command }
    }

    /// The command the arguments carry.
    pub fn command(&self) -> (r: &Command)
        ensures
            *r == self.spec_command(),
    {
        &self.args
    }
}

} // verus!
