//! Calendar dates. A `Date` is a day of the proleptic Gregorian calendar,
//! held as year, month and day. Reading one from text is done by the `time`
//! crate; that what it hands back is a day of the calendar, and is what the
//! text writes as four digits, two digits and two digits, is checked here,
//! so that a text is a date if and only if it is written that way.

use crate::number::{all_digits, decimal_value, is_digit};
use crate::text::to_chars;
use vstd::prelude::*;

verus! {

/// The smallest year a `Date` can have.
pub const MIN_YEAR: i32 = -9999;

/// The largest year a `Date` can have.
pub const MAX_YEAR: i32 = 9999;

/// How article dates are written: year, month and day, with hyphens.
pub const DATE_FORMAT: &'static str = "[year]-[month]-[day]";

/// The twelve months.
#[derive(Debug, Clone, Copy, PartialEq, Eq, Structural)]
pub enum Month {
    January,
    February,
    March,
    April,
    May,
    June,
    July,
    August,
    September,
    October,
    November,
    December,
}

impl Month {
    /// The month's number, 1 for January to 12 for December.
    pub open spec fn ordinal(self) -> int {
        match self {
            Month::January => 1,
            Month::February => 2,
            Month::March => 3,
            Month::April => 4,
            Month::May => 5,
            Month::June => 6,
            Month::July => 7,
            Month::August => 8,
            Month::September => 9,
            Month::October => 10,
            Month::November => 11,
            Month::December => 12,
        }
    }

    /// The month's number, 1 for January to 12 for December.
    pub fn number(self) -> (n: u8)
        ensures
            n == self.ordinal(),
            1 <= n <= 12,
    {
        match self {
            Month::January => 1,
            Month::February => 2,
            Month::March => 3,
            Month::April => 4,
            Month::May => 5,
            Month::June => 6,
            Month::July => 7,
            Month::August => 8,
            Month::September => 9,
            Month::October => 10,
            Month::November => 11,
            Month::December => 12,
        }
    }

    /// The month with the number `n`, where `n` is one of 1 to 12.
    pub fn from_number(n: u8) -> (r: Option<Month>)
        ensures
            r is Some <==> 1 <= n <= 12,
            r matches Some(month) ==> month.ordinal() == n,
    {
        match n {
            1 => Some(Month::January),
            2 => Some(Month::February),
            3 => Some(Month::March),
            4 => Some(Month::April),
            5 => Some(Month::May),
            6 => Some(Month::June),
            7 => Some(Month::July),
            8 => Some(Month::August),
            9 => Some(Month::September),
            10 => Some(Month::October),
            11 => Some(Month::November),
            12 => Some(Month::December),
            _ => None,
        }
    }
}

/// `year` has a 29th of February.
pub open spec fn is_leap_year(year: int) -> bool {
    year % 4 == 0 && (year % 100 != 0 || year % 400 == 0)
}

/// Number of days of the month `month` (1 to 12) in `year`; 0 for any other
/// month number.
pub open spec fn days_in_month(year: int, month: int) -> int {
    if month == 2 {
        if is_leap_year(year) {
            29
        } else {
            28
        }
    } else if month == 4 || month == 6 || month == 9 || month == 11 {
        30
    } else if 1 <= month <= 12 {
        31
    } else {
        0
    }
}

/// Year, month and day name a day of the calendar.
pub open spec fn is_calendar_date(year: int, month: int, day: int) -> bool {
    &&& MIN_YEAR <= year <= MAX_YEAR
    &&& 1 <= month <= 12
    &&& 1 <= day <= days_in_month(year, month)
}

/// What a `Date` holds.
pub struct DateView {
    pub year: int,
    pub month: int,
    pub day: int,
}

/// A day of the calendar.
#[derive(Debug, Clone, Copy, PartialEq, Eq)]
pub struct Date {
    year: i32,
    month: u8,
    day: u8,
}

impl View for Date {
    type V = DateView;

    closed spec fn view(&self) -> DateView {
        DateView { year: self.year as int, month: self.month as int, day: self.day as int }
    }
}

/// The digits `s` write the number `n`.
pub open spec fn writes_number(s: Seq<char>, n: int) -> bool {
    all_digits(s) && decimal_value(s) == n
}

/// `text` is the date written out: four digits for the year, a hyphen, two
/// digits for the month, a hyphen, two digits for the day, and nothing else.
pub open spec fn writes_date(text: Seq<char>, year: int, month: int, day: int) -> bool {
    &&& text.len() == 10
    &&& text[4] == '-'
    &&& text[7] == '-'
    &&& writes_number(text.subrange(0, 4), year)
    &&& writes_number(text.subrange(5, 7), month)
    &&& writes_number(text.subrange(8, 10), day)
}

/// The date that `text` writes in the article format: the year, month and
/// day that its digits write, where the text is a date written out and that
/// date is a day of the calendar.
pub open spec fn date_of(text: Seq<char>) -> Option<DateView> {
    let year = decimal_value(text.subrange(0, 4));
    let month = decimal_value(text.subrange(5, 7));
    let day = decimal_value(text.subrange(8, 10));
    if writes_date(text, year, month, day) && is_calendar_date(year, month, day) {
        Some(DateView { year, month, day })
    } else {
        None
    }
}

/// The date that a reading of `text` stands for: the three numbers read,
/// where `text` writes just them and they name a day of the calendar.
pub open spec fn reading_date(text: Seq<char>, reading: Option<(i32, u8, u8)>) -> Option<
    DateView,
> {
    match reading {
        Some((year, month, day)) => if writes_date(text, year as int, month as int, day as int)
            && is_calendar_date(year as int, month as int, day as int) {
            Some(DateView { year: year as int, month: month as int, day: day as int })
        } else {
            None
        },
        None => None,
    }
}

/// The view of an optional date.
pub open spec fn date_view(date: Option<Date>) -> Option<DateView> {
    match date {
        Some(d) => Some(d@),
        None => None,
    }
}

/// The number that the digits `chars[from..to]` write, `None` where one of
/// them is no digit.
fn digits_value(chars: &Vec<char>, from: usize, to: usize) -> (r: Option<u32>)
    requires
        from <= to <= chars.len(),
        to - from <= 4,
    ensures
        r is Some <==> all_digits(chars@.subrange(from as int, to as int)),
        r matches Some(n) ==> n == decimal_value(chars@.subrange(from as int, to as int)),
{
    let ghost part = chars@.subrange(from as int, to as int);
    let mut n: u32 = 0;
    let mut i: usize = from;
    while i < to
        invariant
            from <= i <= to <= chars.len(),
            to - from <= 4,
            part == chars@.subrange(from as int, to as int),
            all_digits(part.take(i - from)),
            n == decimal_value(part.take(i - from)),
            n <= 9999,
        decreases to - i,
    {
        let c: char = chars[i];
        let ghost upto = part.take(i - from);
        let ghost grown = part.take(i - from + 1);
        proof {
            assert(part[i - from] == c);
            assert(grown.drop_last() == upto);
            assert(grown.last() == c);
        }
        if !(c >= '0' && c <= '9') {
            proof {
                assert(!is_digit(part[i - from]));
            }
            return None;
        }
        proof {
            assert forall|j: int| 0 <= j < grown.len() implies is_digit(#[trigger] grown[j]) by {
                if j < upto.len() {
                    assert(grown[j] == upto[j]);
                }
            }
            lemma_few_digits(upto);
        }
        n = n * 10 + (c as u32 - '0' as u32);
        proof {
            lemma_few_digits(grown);
        }
        i += 1;
    }
    proof {
        assert(part.take(to - from) == part);
    }
    Some(n)
}

/// Few digits write a small number: one digit at most 9, two at most 99,
/// three at most 999, four at most 9999.
proof fn lemma_few_digits(s: Seq<char>)
    requires
        all_digits(s),
        s.len() <= 4,
    ensures
        0 <= decimal_value(s) <= 9999,
        s.len() <= 3 ==> decimal_value(s) <= 999,
        s.len() <= 2 ==> decimal_value(s) <= 99,
        s.len() <= 1 ==> decimal_value(s) <= 9,
    decreases s.len(),
{
    if s.len() > 0 {
        assert(is_digit(s.last()));
        lemma_few_digits(s.drop_last());
    }
}

/// Tells whether `text` writes the date out as four digits, two digits and
/// two digits with hyphens between them.
pub fn is_written(text: &str, year: i32, month: u8, day: u8) -> (r: bool)
    ensures
        r == writes_date(text@, year as int, month as int, day as int),
{
    let chars = to_chars(text);
    if chars.len() != 10 || chars[4] != '-' || chars[7] != '-' {
        return false;
    }
    let y = digits_value(&chars, 0, 4);
    let m = digits_value(&chars, 5, 7);
    let d = digits_value(&chars, 8, 10);
    match (y, m, d) {
        (Some(y), Some(m), Some(d)) => year >= 0 && y == year as u32 && m == month as u32 && d
            == day as u32,
        _ => false,
    }
}

/// Tells whether `year` has a 29th of February.
pub fn leap_year(year: i32) -> (r: bool)
    ensures
        r == is_leap_year(year as int),
{
    year % 4 == 0 && (year % 100 != 0 || year % 400 == 0)
}

/// Number of days of the month numbered `month` in `year`.
pub fn month_length(year: i32, month: u8) -> (r: u8)
    ensures
        r == days_in_month(year as int, month as int),
{
    if month == 2 {
        if leap_year(year) {
            29
        } else {
            28
        }
    } else if month == 4 || month == 6 || month == 9 || month == 11 {
        30
    } else if 1 <= month && month <= 12 {
        31
    } else {
        0
    }
}

/// Parses `format` with `time::format_description::parse_borrowed`, reads
/// `text` by it with `time::Date::parse`, and takes the date apart with
/// `Date::year`, `Date::month` and `Date::day`. The contract claims, for the
/// one format description this library uses, what the crate's source shows:
/// four digits are read as the year, two as the month, two as the day, the
/// hyphens as themselves, and the three numbers are handed back where they
/// name a day of the calendar. Of any other text it claims nothing.
#[verifier::external_body]
fn read_date(format: &str, text: &str) -> (r: Option<(i32, u8, u8)>)
    ensures
        format@ == DATE_FORMAT@ ==> (date_of(text@) matches Some(date) ==> r == Some(
            (date.year as i32, date.month as u8, date.day as u8),
        )),
{
    let items = time::format_description::parse_borrowed::<1>(format).ok()?;
    let date = time::Date::parse(text, &items).ok()?;
    Some((date.year(), u8::from(date.month()), date.day()))
}

impl Date {
    #[verifier::type_invariant]
    closed spec fn on_calendar(self) -> bool {
        is_calendar_date(self.year as int, self.month as int, self.day as int)
    }

    /// The date of the given year, month number and day, where there is
    /// such a day.
    pub fn from_numbers(year: i32, month: u8, day: u8) -> (r: Option<Date>)
        ensures
            r is Some <==> is_calendar_date(year as int, month as int, day as int),
            r matches Some(date) ==> date@ == (DateView {
                year: year as int,
                month: month as int,
                day: day as int,
            }),
    {
        if MIN_YEAR <= year && year <= MAX_YEAR && 1 <= month && month <= 12 && 1 <= day && day
            <= month_length(year, month) {
            Some(Date { year, month, day })
        } else {
            None
        }
    }

    /// The date of the given year, month and day, where there is such a day.
    pub fn from_calendar_date(year: i32, month: Month, day: u8) -> (r: Option<Date>)
        ensures
            r is Some <==> is_calendar_date(year as int, month.ordinal(), day as int),
            r matches Some(date) ==> date@ == (DateView {
                year: year as int,
                month: month.ordinal(),
                day: day as int,
            }),
    {
        Date::from_numbers(year, month.number(), day)
    }

    /// The date that a reading of `text` stands for: the year, month and
    /// day that were read, where `text` writes just them and they name a
    /// day of the calendar.
    pub fn from_reading(text: &str, reading: Option<(i32, u8, u8)>) -> (r: Option<Date>)
        ensures
            date_view(r) == reading_date(text@, reading),
            r is Some ==> date_view(r) == date_of(text@),
    {
        match reading {
            Some((year, month, day)) => {
                if is_written(text, year, month, day) {
                    Date::from_numbers(year, month, day)
                } else {
                    None
                }
            },
            None => None,
        }
    }

    /// Reads a date written as year-month-day: four digits, a hyphen, two
    /// digits, a hyphen, two digits, naming a day of the calendar.
    pub fn parse(text: &str) -> (r: Option<Date>)
        ensures
            date_view(r) == date_of(text@),
    {
        Date::from_reading(text, read_date(DATE_FORMAT, text))
    }

    /// The year.
    pub fn year(&self) -> (y: i32)
        ensures
            y == self@.year,
            MIN_YEAR <= y <= MAX_YEAR,
    {
        proof {
            use_type_invariant(self);
        }
        self.year
    }

    /// The month's number, 1 to 12.
    pub fn month_number(&self) -> (m: u8)
        ensures
            m == self@.month,
            1 <= m <= 12,
    {
        proof {
            use_type_invariant(self);
        }
        self.month
    }

    /// The month.
    pub fn month(&self) -> (m: Month)
        ensures
            m.ordinal() == self@.month,
    {
        proof {
            use_type_invariant(self);
        }
        match Month::from_number(self.month) {
            Some(m) => m,
            None => Month::January,
        }
    }

    /// The day of the month.
    pub fn day(&self) -> (d: u8)
        ensures
            d == self@.day,
            1 <= d <= days_in_month(self@.year, self@.month),
    {
        proof {
            use_type_invariant(self);
        }
        self.day
    }
}

} // verus!
