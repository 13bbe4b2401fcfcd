//! Publication timestamps: the `YYYY-MM-DDThh:mm` form that a page header
//! carries, and the texts that listings show for a date.

use vstd::prelude::*;
use vstd::string::*;
use crate::text::text_le;

verus! {

/// A point in time to the minute, with no seconds and no time zone.
#[derive(Clone, Copy, Debug, PartialEq, Eq, Structural)]
pub struct Timestamp {
    pub year: u16,
    pub month: u8,
    pub day: u8,
    pub hour: u8,
    pub minute: u8,
}

pub open spec fn is_leap_year(year: int) -> bool {
    year % 4 == 0 && (year % 100 != 0 || year % 400 == 0)
}

pub open spec fn days_in_month(year: int, month: int) -> int {
    if month == 2 {
        if is_leap_year(year) {
            29
        } else {
            28
        }
    } else if month == 4 || month == 6 || month == 9 || month == 11 {
        30
    } else {
        31
    }
}

/// The day `year`-`month`-`day` exists in the proleptic Gregorian calendar.
pub open spec fn is_calendar_date(year: int, month: int, day: int) -> bool {
    1 <= month <= 12 && 1 <= day <= days_in_month(year, month)
}

/// `hour`:`minute` is a time of day.
pub open spec fn is_clock_time(hour: int, minute: int) -> bool {
    0 <= hour < 24 && 0 <= minute < 60
}

impl Timestamp {
    /// The fields name a day that exists, in a year of at most four digits,
    /// and a minute of that day.
    pub open spec fn wf(&self) -> bool {
        &&& self.year <= 9999
        &&& is_calendar_date(self.year as int, self.month as int, self.day as int)
        &&& is_clock_time(self.hour as int, self.minute as int)
    }
}

pub open spec fn is_digit(c: char) -> bool {
    '0' <= c && c <= '9'
}

pub open spec fn digit_value(c: char) -> int {
    c as u32 - '0' as u32
}

/// The number that the two decimal digits at `at` and `at + 1` spell.
pub open spec fn two_digits(s: Seq<char>, at: int) -> int {
    10 * digit_value(s[at]) + digit_value(s[at + 1])
}

/// The number that the four decimal digits from `at` on spell.
pub open spec fn four_digits(s: Seq<char>, at: int) -> int {
    100 * two_digits(s, at) + two_digits(s, at + 2)
}

/// `s` is sixteen characters in the form `YYYY-MM-DDThh:mm`: digits in the
/// place of each letter but `T`, and the separators as written.
pub open spec fn has_timestamp_shape(s: Seq<char>) -> bool {
    &&& s.len() == 16
    &&& is_digit(s[0]) && is_digit(s[1]) && is_digit(s[2]) && is_digit(s[3])
    &&& s[4] == '-'
    &&& is_digit(s[5]) && is_digit(s[6])
    &&& s[7] == '-'
    &&& is_digit(s[8]) && is_digit(s[9])
    &&& s[10] == 'T'
    &&& is_digit(s[11]) && is_digit(s[12])
    &&& s[13] == ':'
    &&& is_digit(s[14]) && is_digit(s[15])
}

/// The fields that a text of the timestamp shape spells.
pub open spec fn timestamp_fields(s: Seq<char>) -> Timestamp {
    Timestamp {
        year: four_digits(s, 0) as u16,
        month: two_digits(s, 5) as u8,
        day: two_digits(s, 8) as u8,
        hour: two_digits(s, 11) as u8,
        minute: two_digits(s, 14) as u8,
    }
}

/// The timestamp that `s` stands for, if it stands for one: `s` has the
/// timestamp shape, and its fields name an existing day and minute.
pub open spec fn parsed_timestamp(s: Seq<char>) -> Option<Timestamp> {
    if has_timestamp_shape(s) && timestamp_fields(s).wf() {
        Some(timestamp_fields(s))
    } else {
        None
    }
}

pub open spec fn digit_char(d: int) -> char {
    if d == 0 {
        '0'
    } else if d == 1 {
        '1'
    } else if d == 2 {
        '2'
    } else if d == 3 {
        '3'
    } else if d == 4 {
        '4'
    } else if d == 5 {
        '5'
    } else if d == 6 {
        '6'
    } else if d == 7 {
        '7'
    } else if d == 8 {
        '8'
    } else {
        '9'
    }
}

/// The last two decimal digits of `n`, with a leading zero where needed.
pub open spec fn two_digit_text(n: int) -> Seq<char> {
    seq![digit_char(n / 10 % 10), digit_char(n % 10)]
}

/// The last four decimal digits of `n`, with leading zeros where needed.
pub open spec fn four_digit_text(n: int) -> Seq<char> {
    two_digit_text(n / 100) + two_digit_text(n % 100)
}

/// The year as listings group by it: four digits.
pub open spec fn year_text(t: Timestamp) -> Seq<char> {
    four_digit_text(t.year as int)
}

/// The date as pages and listings show it: `YYYY.MM.DD`.
pub open spec fn date_text(t: Timestamp) -> Seq<char> {
    four_digit_text(t.year as int) + seq!['.'] + two_digit_text(t.month as int) + seq!['.']
        + two_digit_text(t.day as int)
}

/// `chrono::NaiveDate::from_ymd_opt`, asked only whether it yields a date:
/// for a year that chrono can represent it does so exactly when the month is
/// one of the twelve and the day exists in that month of that year.
#[verifier::external_body]
fn date_exists(year: i32, month: u32, day: u32) -> (exists: bool)
    requires
        0 <= year <= 9999,
    ensures
        exists == is_calendar_date(year as int, month as int, day as int),
{
    chrono::NaiveDate::from_ymd_opt(year, month, day).is_some()
}

/// `chrono::NaiveTime::from_hms_opt` at second zero, asked only whether it
/// yields a time: it does so exactly when the hour is below 24 and the minute
/// below 60.
#[verifier::external_body]
fn time_exists(hour: u32, minute: u32) -> (exists: bool)
    ensures
        exists == is_clock_time(hour as int, minute as int),
{
    chrono::NaiveTime::from_hms_opt(hour, minute, 0).is_some()
}

/// The value of the character at `at`, if it is a decimal digit.
fn digit_at(text: &str, at: usize) -> (d: Option<u8>)
    requires
        at < text@.len(),
    ensures
        d is Some <==> is_digit(text@[at as int]),
        d matches Some(v) ==> v == digit_value(text@[at as int]) && v < 10,
{
    let c = text.get_char(at);
    if '0' <= c && c <= '9' {
        Some((c as u32 - '0' as u32) as u8)
    } else {
        None
    }
}

/// The number spelled by the two characters at `at`, if both are digits.
fn two_digits_at(text: &str, at: usize) -> (n: Option<u8>)
    requires
        at + 1 < text@.len() <= usize::MAX,
    ensures
        n is Some <==> is_digit(text@[at as int]) && is_digit(text@[at + 1]),
        n matches Some(v) ==> v == two_digits(text@, at as int) && v < 100,
{
    match (digit_at(text, at), digit_at(text, at + 1)) {
        (Some(tens), Some(ones)) => Some(10 * tens + ones),
        _ => None,
    }
}

impl Timestamp {
    /// Reads a timestamp written as `YYYY-MM-DDThh:mm`. Anything else, and a
    /// text of that shape that names no existing day or minute, is refused.
    pub fn parse(text: &str) -> (parsed: Option<Timestamp>)
        ensures
            parsed == parsed_timestamp(text@),
            parsed matches Some(t) ==> t.wf(),
    {
        if text.unicode_len() != 16 {
            return None;
        }
        if text.get_char(4) != '-' || text.get_char(7) != '-' || text.get_char(10) != 'T'
            || text.get_char(13) != ':' {
            return None;
        }
        let fields = (
            two_digits_at(text, 0),
            two_digits_at(text, 2),
            two_digits_at(text, 5),
            two_digits_at(text, 8),
            two_digits_at(text, 11),
            two_digits_at(text, 14),
        );
        match fields {
            (Some(century), Some(years), Some(month), Some(day), Some(hour), Some(minute)) => {
                let year: u16 = 100 * (century as u16) + years as u16;
                if date_exists(year as i32, month as u32, day as u32) && time_exists(
                    hour as u32,
                    minute as u32,
                ) {
                    Some(Timestamp { year, month, day, hour, minute })
                } else {
                    None
                }
            },
            _ => None,
        }
    }

    /// The year as listings group by it: four digits, zero-padded.
    pub fn year_label(&self) -> (label: String)
        ensures
            label@ == year_text(*self),
    {
        four_digit_string(self.year)
    }

    /// The date as pages and listings show it: `YYYY.MM.DD`.
    pub fn format_date(&self) -> (text: String)
        ensures
            text@ == date_text(*self),
    {
        let mut text = four_digit_string(self.year);
        text.append(".");
        text.append(two_digit_string(self.month as u16).as_str());
        text.append(".");
        text.append(two_digit_string(self.day as u16).as_str());
        proof {
            reveal_strlit(".");
            assert("."@ =~= seq!['.']);
        }
        text
    }
}

fn digit_str(d: u16) -> (s: &'static str)
    requires
        d < 10,
    ensures
        s@ == seq![digit_char(d as int)],
{
    proof {
        reveal_strlit("0");
        reveal_strlit("1");
        reveal_strlit("2");
        reveal_strlit("3");
        reveal_strlit("4");
        reveal_strlit("5");
        reveal_strlit("6");
        reveal_strlit("7");
        reveal_strlit("8");
        reveal_strlit("9");
    }
    let s = match d {
        0 => "0",
        1 => "1",
        2 => "2",
        3 => "3",
        4 => "4",
        5 => "5",
        6 => "6",
        7 => "7",
        8 => "8",
        _ => "9",
    };
    assert(s@ =~= seq![digit_char(d as int)]);
    s
}

fn two_digit_string(n: u16) -> (s: String)
    ensures
        s@ == two_digit_text(n as int),
{
    let mut s = digit_str(n / 10 % 10).to_owned();
    s.append(digit_str(n % 10));
    assert(s@ =~= two_digit_text(n as int));
    s
}

fn four_digit_string(n: u16) -> (s: String)
    ensures
        s@ == four_digit_text(n as int),
{
    let mut s = two_digit_string(n / 100);
    s.append(two_digit_string(n % 100).as_str());
    s
}

proof fn lemma_digit_char_of_value(c: char)
    requires
        is_digit(c),
    ensures
        digit_char(digit_value(c)) == c,
        0 <= digit_value(c) < 10,
{
}

proof fn lemma_two_digit_text(tens: int, ones: int)
    requires
        0 <= tens < 10,
        0 <= ones < 10,
    ensures
        two_digit_text(10 * tens + ones) == seq![digit_char(tens), digit_char(ones)],
{
    let n = 10 * tens + ones;
    assert(n / 10 % 10 == tens && n % 10 == ones);
}

proof fn lemma_two_digits_written(s: Seq<char>, at: int)
    requires
        0 <= at,
        at + 1 < s.len(),
        is_digit(s[at]),
        is_digit(s[at + 1]),
    ensures
        two_digit_text(two_digits(s, at)) == s.subrange(at, at + 2),
        0 <= two_digits(s, at) < 100,
{
    lemma_digit_char_of_value(s[at]);
    lemma_digit_char_of_value(s[at + 1]);
    lemma_two_digit_text(digit_value(s[at]), digit_value(s[at + 1]));
    assert(seq![s[at], s[at + 1]] =~= s.subrange(at, at + 2));
}

proof fn lemma_four_digits_written(s: Seq<char>, at: int)
    requires
        0 <= at,
        at + 3 < s.len(),
        is_digit(s[at]),
        is_digit(s[at + 1]),
        is_digit(s[at + 2]),
        is_digit(s[at + 3]),
    ensures
        four_digit_text(four_digits(s, at)) == s.subrange(at, at + 4),
        0 <= four_digits(s, at) < 10000,
{
    lemma_two_digits_written(s, at);
    lemma_two_digits_written(s, at + 2);
    let high = two_digits(s, at);
    let low = two_digits(s, at + 2);
    let n = 100 * high + low;
    assert(n / 100 == high && n % 100 == low);
    assert(s.subrange(at, at + 2) + s.subrange(at + 2, at + 4) =~= s.subrange(at, at + 4));
}

/// The date that is shown for a timestamp is the date that was written: the
/// digits of year, month and day of the text that was read, with dots
/// between them.
pub proof fn lemma_shown_date_is_written_date(s: Seq<char>)
    requires
        has_timestamp_shape(s),
    ensures
        date_text(timestamp_fields(s)) == s.subrange(0, 4) + seq!['.'] + s.subrange(5, 7)
            + seq!['.'] + s.subrange(8, 10),
        year_text(timestamp_fields(s)) == s.subrange(0, 4),
{
    lemma_four_digits_written(s, 0);
    lemma_two_digits_written(s, 5);
    lemma_two_digits_written(s, 8);
}

/// The digits of a year of up to four digits, the highest first.
spec fn year_digits(year: int) -> Seq<int> {
    seq![year / 1000, year / 100 % 10, year / 10 % 10, year % 10]
}

proof fn lemma_year_text_digits(year: int)
    requires
        0 <= year <= 9999,
    ensures
        four_digit_text(year) == year_digits(year).map_values(|d: int| digit_char(d)),
        forall|i: int| 0 <= i < 4 ==> 0 <= #[trigger] year_digits(year)[i] < 10,
        year == 1000 * year_digits(year)[0] + 100 * year_digits(year)[1] + 10 * year_digits(
            year,
        )[2] + year_digits(year)[3],
{
    let high = year / 100;
    let low = year % 100;
    assert(high / 10 % 10 == year / 1000 && high % 10 == year / 100 % 10);
    assert(low / 10 % 10 == year / 10 % 10 && low % 10 == year % 10);
    assert(four_digit_text(year) =~= year_digits(year).map_values(|d: int| digit_char(d)));
}

/// Texts of four characters stand in the order of their first difference.
proof fn lemma_text_le_of_four(x: Seq<char>, y: Seq<char>)
    requires
        x.len() == 4,
        y.len() == 4,
    ensures
        text_le(x, y) <==> (if x[0] != y[0] {
            x[0] < y[0]
        } else if x[1] != y[1] {
            x[1] < y[1]
        } else if x[2] != y[2] {
            x[2] < y[2]
        } else if x[3] != y[3] {
            x[3] < y[3]
        } else {
            true
        }),
{
    reveal_with_fuel(text_le, 5);
    assert(x.skip(1).skip(1) =~= x.skip(2));
    assert(y.skip(1).skip(1) =~= y.skip(2));
    assert(x.skip(2).skip(1) =~= x.skip(3));
    assert(y.skip(2).skip(1) =~= y.skip(3));
    assert(x.skip(3).skip(1).len() == 0);
}

/// Years of up to four digits stand in the order of their labels: one year
/// is no later than another exactly when its label comes no later.
pub proof fn lemma_year_labels_keep_the_order_of_years(a: Timestamp, b: Timestamp)
    requires
        a.year <= 9999,
        b.year <= 9999,
    ensures
        text_le(year_text(a), year_text(b)) <==> a.year <= b.year,
{
    let x = year_digits(a.year as int);
    let y = year_digits(b.year as int);
    lemma_year_text_digits(a.year as int);
    lemma_year_text_digits(b.year as int);
    lemma_text_le_of_four(year_text(a), year_text(b));
    assert forall|i: int| 0 <= i < 4 implies (year_text(a)[i] < year_text(b)[i] <==> x[i] < y[i])
        && (year_text(a)[i] == year_text(b)[i] <==> x[i] == y[i]) by {
        assert(year_text(a)[i] == digit_char(x[i]));
        assert(year_text(b)[i] == digit_char(y[i]));
    }
}

} // verus!
