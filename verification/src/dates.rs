//! Civil-calendar dates as plain values: validity, day numbers, and the
//! arithmetic the timeline and logistics calculations rest on.
//!
//! A date is a year, month and day in the Gregorian calendar, valid
//! between the years 1600 and 9999. Its day number counts the days since
//! 1600-01-01, which fell on a Saturday; differences of day numbers are
//! exact day distances. The current date itself comes from the caller:
//! nothing here reads a clock.

use vstd::prelude::*;

verus! {

/// A Gregorian calendar date.
#[derive(Clone, Copy, PartialEq, Eq, Structural, Debug)]
pub struct Date {
    pub year: i32,
    pub month: u8,
    pub day: u8,
}

/// A Gregorian leap year: divisible by 4, but centuries only by 400.
pub open spec fn is_leap_year(y: int) -> bool {
    (y % 4 == 0 && y % 100 != 0) || y % 400 == 0
}

/// The length of a month in a year.
pub open spec fn days_in_month_spec(y: int, m: int) -> int {
    if m == 4 || m == 6 || m == 9 || m == 11 {
        30
    } else if m == 2 {
        if is_leap_year(y) {
            29
        } else {
            28
        }
    } else {
        31
    }
}

/// A date the arithmetic accepts: within the supported years, its month
/// a real month, its day within the month.
pub open spec fn date_valid(d: Date) -> bool {
    &&& 1600 <= d.year <= 9999
    &&& 1 <= d.month <= 12
    &&& 1 <= d.day <= days_in_month_spec(d.year as int, d.month as int)
}

/// The length of a year.
pub open spec fn days_in_year(y: int) -> int {
    if is_leap_year(y) {
        366
    } else {
        365
    }
}

/// Days in all years from 1600 up to (excluding) `y`.
pub open spec fn days_before_year(y: int) -> int
    decreases y,
{
    if y <= 1600 {
        0
    } else {
        days_before_year(y - 1) + days_in_year(y - 1)
    }
}

/// Days in all months of year `y` before month `m`.
pub open spec fn days_before_month(y: int, m: int) -> int
    decreases m,
{
    if m <= 1 {
        0
    } else {
        days_before_month(y, m - 1) + days_in_month_spec(y, m - 1)
    }
}

/// The day number of a date: how many days lie between 1600-01-01 and it.
pub open spec fn day_number_spec(d: Date) -> int {
    days_before_year(d.year as int) + days_before_month(d.year as int, d.month as int) + d.day - 1
}

/// Day counts never shrink as years advance, and each year adds at most
/// 366 days.
pub proof fn lemma_days_before_year_bounds(a: int, b: int)
    requires
        1600 <= a <= b,
    ensures
        0 <= days_before_year(b) - days_before_year(a),
        days_before_year(b) - days_before_year(a) <= 366 * (b - a),
        365 * (b - a) <= days_before_year(b) - days_before_year(a),
    decreases b - a,
{
    if a < b {
        lemma_days_before_year_bounds(a, b - 1);
    }
}

/// A whole year of months is exactly the year's length.
pub proof fn lemma_full_year_of_months(y: int)
    ensures
        days_before_month(y, 13) == days_in_year(y),
{
    assert(days_before_month(y, 1) == 0);
    assert(days_before_month(y, 2) == days_before_month(y, 1) + days_in_month_spec(y, 1));
    assert(days_before_month(y, 3) == days_before_month(y, 2) + days_in_month_spec(y, 2));
    assert(days_before_month(y, 4) == days_before_month(y, 3) + days_in_month_spec(y, 3));
    assert(days_before_month(y, 5) == days_before_month(y, 4) + days_in_month_spec(y, 4));
    assert(days_before_month(y, 6) == days_before_month(y, 5) + days_in_month_spec(y, 5));
    assert(days_before_month(y, 7) == days_before_month(y, 6) + days_in_month_spec(y, 6));
    assert(days_before_month(y, 8) == days_before_month(y, 7) + days_in_month_spec(y, 7));
    assert(days_before_month(y, 9) == days_before_month(y, 8) + days_in_month_spec(y, 8));
    assert(days_before_month(y, 10) == days_before_month(y, 9) + days_in_month_spec(y, 9));
    assert(days_before_month(y, 11) == days_before_month(y, 10) + days_in_month_spec(y, 10));
    assert(days_before_month(y, 12) == days_before_month(y, 11) + days_in_month_spec(y, 11));
    assert(days_before_month(y, 13) == days_before_month(y, 12) + days_in_month_spec(y, 12));
}

/// Months add at least 28 and at most 31 days each.
pub proof fn lemma_days_before_month_bounds(y: int, a: int, b: int)
    requires
        1 <= a <= b,
    ensures
        28 * (b - a) <= days_before_month(y, b) - days_before_month(y, a),
        days_before_month(y, b) - days_before_month(y, a) <= 31 * (b - a),
    decreases b - a,
{
    if a < b {
        lemma_days_before_month_bounds(y, a, b - 1);
    }
}

/// A valid date's offset within its year lies inside the year.
pub proof fn lemma_year_offset_bounds(d: Date)
    requires
        date_valid(d),
    ensures
        0 <= days_before_month(d.year as int, d.month as int) + d.day - 1,
        days_before_month(d.year as int, d.month as int) + d.day - 1 < days_in_year(
            d.year as int,
        ),
{
    let y = d.year as int;
    let m = d.month as int;
    lemma_days_before_month_bounds(y, 1, m);
    lemma_days_before_month_bounds(y, m + 1, 13);
    lemma_full_year_of_months(y);
    assert(days_before_month(y, m + 1) == days_before_month(y, m) + days_in_month_spec(y, m));
}

/// No two valid dates share a day number.
pub proof fn lemma_day_number_injective(d1: Date, d2: Date)
    requires
        date_valid(d1),
        date_valid(d2),
        day_number_spec(d1) == day_number_spec(d2),
    ensures
        d1 == d2,
{
    lemma_year_offset_bounds(d1);
    lemma_year_offset_bounds(d2);
    if d1.year < d2.year {
        lemma_days_before_year_bounds(d1.year as int + 1, d2.year as int);
        assert(days_before_year(d1.year as int + 1) == days_before_year(d1.year as int)
            + days_in_year(d1.year as int));
    } else if d2.year < d1.year {
        lemma_days_before_year_bounds(d2.year as int + 1, d1.year as int);
        assert(days_before_year(d2.year as int + 1) == days_before_year(d2.year as int)
            + days_in_year(d2.year as int));
    } else {
        let y = d1.year as int;
        if d1.month < d2.month {
            lemma_days_before_month_bounds(y, d1.month as int + 1, d2.month as int);
            assert(days_before_month(y, d1.month as int + 1) == days_before_month(
                y,
                d1.month as int,
            ) + days_in_month_spec(y, d1.month as int));
        } else if d2.month < d1.month {
            lemma_days_before_month_bounds(y, d2.month as int + 1, d1.month as int);
            assert(days_before_month(y, d2.month as int + 1) == days_before_month(
                y,
                d2.month as int,
            ) + days_in_month_spec(y, d2.month as int));
        } else {
        }
    }
}

/// The largest supported day number: that of 9999-12-31.
pub open spec fn max_day_number() -> int {
    day_number_spec(Date { year: 9999, month: 12, day: 31 })
}

/// The supported day numbers all fit comfortably in 64 bits.
pub proof fn lemma_max_day_number_bound()
    ensures
        max_day_number() < 3100000,
{
    lemma_days_before_year_bounds(1600, 9999);
    lemma_days_before_month_bounds(9999, 1, 12);
}

/// Whether a year is a leap year.
pub fn is_leap(y: i32) -> (b: bool)
    requires
        0 <= y,
    ensures
        b == is_leap_year(y as int),
{
    (y % 4 == 0 && y % 100 != 0) || y % 400 == 0
}

/// The length of a month.
pub fn days_in_month(y: i32, m: u8) -> (n: u8)
    requires
        0 <= y,
        1 <= m <= 12,
    ensures
        n as int == days_in_month_spec(y as int, m as int),
{
    if m == 4 || m == 6 || m == 9 || m == 11 {
        30
    } else if m == 2 {
        if is_leap(y) {
            29
        } else {
            28
        }
    } else {
        31
    }
}

/// Whether a year, month and day form a valid date.
pub fn make_date(year: i32, month: u8, day: u8) -> (r: Option<Date>)
    ensures
        r is Some <==> date_valid(Date { year, month, day }),
        r is Some ==> r->0 == (Date { year, month, day }),
{
    if 1600 <= year && year <= 9999 && 1 <= month && month <= 12 && 1 <= day && day
        <= days_in_month(year, month) {
        Some(Date { year, month, day })
    } else {
        None
    }
}

/// The day number of a date: days since 1600-01-01.
pub fn day_number(d: Date) -> (n: i64)
    requires
        date_valid(d),
    ensures
        n as int == day_number_spec(d),
        0 <= n <= max_day_number(),
{
    let mut acc: i64 = 0;
    let mut y: i32 = 1600;
    while y < d.year
        invariant
            1600 <= y <= d.year <= 9999,
            acc == days_before_year(y as int),
            0 <= acc <= 366 * (y - 1600),
        decreases d.year - y,
    {
        proof {
            lemma_days_before_year_bounds(1600, y as int + 1);
        }
        if is_leap(y) {
            acc += 366;
        } else {
            acc += 365;
        }
        y += 1;
    }
    let mut m: u8 = 1;
    while m < d.month
        invariant
            date_valid(d),
            1 <= m <= d.month,
            y == d.year,
            acc == days_before_year(d.year as int) + days_before_month(d.year as int, m as int),
            days_before_year(d.year as int) <= 366 * (d.year - 1600),
            0 <= acc <= 366 * (d.year - 1600) + 31 * (m - 1),
        decreases d.month - m,
    {
        proof {
            lemma_days_before_month_bounds(d.year as int, 1, m as int + 1);
        }
        acc += days_in_month(y, m) as i64;
        m += 1;
    }
    proof {
        lemma_days_before_year_bounds(d.year as int, 9999);
        lemma_days_before_month_bounds(d.year as int, d.month as int, 12);
        lemma_full_year_of_months(d.year as int);
        lemma_days_before_month_bounds(9999, 1, 12);
    }
    acc + (d.day as i64) - 1
}

/// The date of a day number: the inverse of [`day_number`].
pub fn date_from_day_number(n: i64) -> (d: Date)
    requires
        0 <= n <= max_day_number(),
    ensures
        date_valid(d),
        day_number_spec(d) == n,
{
    let mut y: i32 = 1600;
    let mut rem: i64 = n;
    loop
        invariant
            1600 <= y <= 9999,
            0 <= rem,
            days_before_year(y as int) + rem == n,
            n <= max_day_number(),
        ensures
            1600 <= y <= 9999,
            0 <= rem,
            days_before_year(y as int) + rem == n,
            rem < days_in_year(y as int),
        decreases rem,
    {
        let len: i64 = if is_leap(y) {
            366
        } else {
            365
        };
        if rem < len {
            break ;
        }
        proof {
            if y == 9999 {
                lemma_full_year_of_months(9999);
                assert(days_before_month(9999int, 13) == days_before_month(9999int, 12)
                    + days_in_month_spec(9999int, 12));
                assert(days_before_month(9999int, 12) == 334);
                assert(max_day_number() == days_before_year(9999) + days_before_month(9999, 12)
                    + 30);
                assert(false);
            }
        }
        rem -= len;
        y += 1;
    }
    let mut m: u8 = 1;
    proof {
        lemma_full_year_of_months(y as int);
    }
    loop
        invariant
            1600 <= y <= 9999,
            1 <= m <= 12,
            0 <= rem,
            days_before_year(y as int) + days_before_month(y as int, m as int) + rem == n,
            rem + days_before_month(y as int, m as int) < days_in_year(y as int),
            days_before_month(y as int, 13) == days_in_year(y as int),
        ensures
            1600 <= y <= 9999,
            1 <= m <= 12,
            0 <= rem,
            days_before_year(y as int) + days_before_month(y as int, m as int) + rem == n,
            rem < days_in_month_spec(y as int, m as int),
        decreases 12 - m,
    {
        let len: i64 = days_in_month(y, m) as i64;
        if rem < len {
            break ;
        }
        proof {
            if m == 12 {
                assert(days_before_month(y as int, 13) == days_before_month(y as int, 12)
                    + days_in_month_spec(y as int, 12));
                assert(false);
            }
        }
        rem -= len;
        m += 1;
    }
    let d = Date { year: y, month: m, day: (rem + 1) as u8 };
    d
}

/// The weekday of a day number, 1600-01-01 having been a Saturday:
/// 0 Saturday, 1 Sunday, 2 Monday, ..., 6 Friday.
pub open spec fn weekday_index_spec(n: int) -> int {
    n % 7
}

/// Whether a date falls on a Friday.
pub fn is_friday(d: Date) -> (b: bool)
    requires
        date_valid(d),
    ensures
        b == (weekday_index_spec(day_number_spec(d)) == 6),
{
    let n = day_number(d);
    n % 7 == 6
}

/// The value of a decimal digit character, ten for anything else.
pub open spec fn digit_value(c: char) -> int {
    if c == '0' {
        0
    } else if c == '1' {
        1
    } else if c == '2' {
        2
    } else if c == '3' {
        3
    } else if c == '4' {
        4
    } else if c == '5' {
        5
    } else if c == '6' {
        6
    } else if c == '7' {
        7
    } else if c == '8' {
        8
    } else if c == '9' {
        9
    } else {
        10
    }
}

/// The digit character of a value below ten, '0' for anything else.
pub open spec fn digit_char(v: int) -> char {
    if v == 1 {
        '1'
    } else if v == 2 {
        '2'
    } else if v == 3 {
        '3'
    } else if v == 4 {
        '4'
    } else if v == 5 {
        '5'
    } else if v == 6 {
        '6'
    } else if v == 7 {
        '7'
    } else if v == 8 {
        '8'
    } else if v == 9 {
        '9'
    } else {
        '0'
    }
}

/// A text has the shape `YYYY-MM-DD`: ten characters, digits around
/// dashes.
pub open spec fn date_text_wf(s: Seq<char>) -> bool {
    &&& s.len() == 10
    &&& s[4] == '-'
    &&& s[7] == '-'
    &&& forall|i: int|
        (0 <= i < 4 || i == 5 || i == 6 || i == 8 || i == 9) ==> digit_value(#[trigger] s[i]) < 10
}

/// The year a well-shaped date text spells.
pub open spec fn text_year(s: Seq<char>) -> int {
    1000 * digit_value(s[0]) + 100 * digit_value(s[1]) + 10 * digit_value(s[2]) + digit_value(s[3])
}

/// The month a well-shaped date text spells.
pub open spec fn text_month(s: Seq<char>) -> int {
    10 * digit_value(s[5]) + digit_value(s[6])
}

/// The day a well-shaped date text spells.
pub open spec fn text_day(s: Seq<char>) -> int {
    10 * digit_value(s[8]) + digit_value(s[9])
}

/// The date a well-shaped date text spells.
pub open spec fn text_date(s: Seq<char>) -> Date {
    Date { year: text_year(s) as i32, month: text_month(s) as u8, day: text_day(s) as u8 }
}

fn digit_of(c: char) -> (v: u8)
    ensures
        v as int == digit_value(c),
{
    match c {
        '0' => 0,
        '1' => 1,
        '2' => 2,
        '3' => 3,
        '4' => 4,
        '5' => 5,
        '6' => 6,
        '7' => 7,
        '8' => 8,
        '9' => 9,
        _ => 10,
    }
}

/// Parse a `YYYY-MM-DD` text into a valid date; anything ill-shaped or
/// out of range gives nothing.
pub fn parse_date(s: &str) -> (r: Option<Date>)
    ensures
        r is Some <==> (date_text_wf(s@) && date_valid(text_date(s@))),
        r is Some ==> r->0 == text_date(s@),
{
    let n = s.unicode_len();
    if n != 10 {
        return None;
    }
    if !(s.get_char(4) == '-' && s.get_char(7) == '-') {
        return None;
    }
    let d0 = digit_of(s.get_char(0));
    let d1 = digit_of(s.get_char(1));
    let d2 = digit_of(s.get_char(2));
    let d3 = digit_of(s.get_char(3));
    let m0 = digit_of(s.get_char(5));
    let m1 = digit_of(s.get_char(6));
    let a0 = digit_of(s.get_char(8));
    let a1 = digit_of(s.get_char(9));
    if d0 >= 10 || d1 >= 10 || d2 >= 10 || d3 >= 10 || m0 >= 10 || m1 >= 10 || a0 >= 10 || a1
        >= 10 {
        proof {
            assert(!date_text_wf(s@));
        }
        return None;
    }
    proof {
        assert forall|i: int|
            (0 <= i < 4 || i == 5 || i == 6 || i == 8 || i == 9) implies digit_value(
            #[trigger] s@[i],
        ) < 10 by {}
        assert(date_text_wf(s@));
    }
    let year: i32 = 1000 * (d0 as i32) + 100 * (d1 as i32) + 10 * (d2 as i32) + (d3 as i32);
    let month: u8 = 10 * m0 + m1;
    let day: u8 = 10 * a0 + a1;
    make_date(year, month, day)
}

/// The `YYYY-MM-DD` characters of a date.
pub open spec fn date_text(d: Date) -> Seq<char> {
    seq![
        digit_char(d.year as int / 1000 % 10),
        digit_char(d.year as int / 100 % 10),
        digit_char(d.year as int / 10 % 10),
        digit_char(d.year as int % 10),
        '-',
        digit_char(d.month as int / 10),
        digit_char(d.month as int % 10),
        '-',
        digit_char(d.day as int / 10),
        digit_char(d.day as int % 10),
    ]
}

fn char_of_digit(v: u8) -> (c: char)
    ensures
        c == digit_char(v as int),
{
    match v {
        1 => '1',
        2 => '2',
        3 => '3',
        4 => '4',
        5 => '5',
        6 => '6',
        7 => '7',
        8 => '8',
        9 => '9',
        _ => '0',
    }
}

/// Relies on `String::from_iter` over chars: the collected string holds
/// exactly the given characters.
#[verifier::external_body]
pub(crate) fn string_from_chars(v: &Vec<char>) -> (r: String)
    ensures
        r@ == v@,
{
    v.iter().collect()
}

/// Render a date as `YYYY-MM-DD`, zero-padded.
pub fn format_date(d: Date) -> (r: String)
    requires
        date_valid(d),
    ensures
        r@ == date_text(d),
{
    let mut out: Vec<char> = Vec::new();
    out.push(char_of_digit(((d.year / 1000) % 10) as u8));
    out.push(char_of_digit(((d.year / 100) % 10) as u8));
    out.push(char_of_digit(((d.year / 10) % 10) as u8));
    out.push(char_of_digit((d.year % 10) as u8));
    out.push('-');
    out.push(char_of_digit(d.month / 10));
    out.push(char_of_digit(d.month % 10));
    out.push('-');
    out.push(char_of_digit(d.day / 10));
    out.push(char_of_digit(d.day % 10));
    let r = string_from_chars(&out);
    proof {
        assert(out@ =~= date_text(d));
    }
    r
}

} // verus!
