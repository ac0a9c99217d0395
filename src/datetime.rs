//! The portal's meeting time text: `<weekday> <start> - <end> <date>`, with the
//! date as `DD/MM/YYYY` and each time as a 12-hour clock reading such as `9:00AM`.
use crate::models::{precedes, CivilDateTime};
use crate::text::{split_tokens, tokens};
use vstd::prelude::*;

verus! {

/// Why a meeting time text could not be read.
#[derive(Clone, Copy, Debug, PartialEq, Eq, Structural)]
pub enum DateTimeError {
    /// The text is not made of exactly five tokens.
    UnknownFormat,
    /// The date or the start time is not a valid reading.
    InvalidStart,
    /// The date or the end time is not a valid reading.
    InvalidEnd,
    /// The end does not come after the start.
    EndNotAfterStart,
}

pub open spec fn is_digit(c: char) -> bool {
    '0' <= c <= '9'
}

pub open spec fn digit_value(c: char) -> int {
    c as int - '0' as int
}

pub open spec fn is_leap_year(y: int) -> bool {
    (y % 4 == 0 && y % 100 != 0) || y % 400 == 0
}

pub open spec fn days_in_month(y: int, m: int) -> int {
    if m == 2 {
        if is_leap_year(y) {
            29
        } else {
            28
        }
    } else if m == 4 || m == 6 || m == 9 || m == 11 {
        30
    } else {
        31
    }
}

/// The day exists in the proleptic Gregorian calendar.
pub open spec fn date_exists(y: int, m: int, d: int) -> bool {
    1 <= m <= 12 && 1 <= d <= days_in_month(y, m)
}

/// Year, month and day written in `t` as `DD/MM/YYYY`, whether or not that day exists.
pub open spec fn date_fields(t: Seq<char>) -> Option<(int, int, int)> {
    if t.len() == 10 && is_digit(t[0]) && is_digit(t[1]) && t[2] == '/' && is_digit(t[3])
        && is_digit(t[4]) && t[5] == '/' && is_digit(t[6]) && is_digit(t[7]) && is_digit(t[8])
        && is_digit(t[9]) {
        Some(
            (
                digit_value(t[6]) * 1000 + digit_value(t[7]) * 100 + digit_value(t[8]) * 10
                    + digit_value(t[9]),
                digit_value(t[3]) * 10 + digit_value(t[4]),
                digit_value(t[0]) * 10 + digit_value(t[1]),
            ),
        )
    } else {
        None
    }
}

pub open spec fn is_am(a: char, m: char) -> bool {
    (a == 'A' || a == 'a') && (m == 'M' || m == 'm')
}

pub open spec fn is_pm(a: char, m: char) -> bool {
    (a == 'P' || a == 'p') && (m == 'M' || m == 'm')
}

/// The 24-hour reading of a 12-hour clock hour.
pub open spec fn hour_24(h12: int, pm: bool) -> int {
    if pm {
        if h12 == 12 {
            12
        } else {
            h12 + 12
        }
    } else {
        if h12 == 12 {
            0
        } else {
            h12
        }
    }
}

/// Hour (0 to 23) and minute written in `t` as `H:MMAM` or `HH:MMPM`; `None` when
/// `t` has another shape or the hour is not 1 to 12 or the minute over 59.
pub open spec fn clock_fields(t: Seq<char>) -> Option<(int, int)> {
    let w = t.len() as int - 6;
    if (w == 0 || w == 1) && is_digit(t[w]) && t[w + 1] == ':' && is_digit(t[w + 2]) && is_digit(
        t[w + 3],
    ) && (is_am(t[w + 4], t[w + 5]) || is_pm(t[w + 4], t[w + 5])) && (w == 0 || is_digit(t[0])) {
        let h12 = if w == 1 {
            digit_value(t[0]) * 10 + digit_value(t[1])
        } else {
            digit_value(t[0])
        };
        let minute = digit_value(t[w + 2]) * 10 + digit_value(t[w + 3]);
        if 1 <= h12 <= 12 && minute <= 59 {
            Some((hour_24(h12, is_pm(t[w + 4], t[w + 5])), minute))
        } else {
            None
        }
    } else {
        None
    }
}

/// The moment that a date token and a time token name together.
pub open spec fn civil_of(date: Seq<char>, time: Seq<char>) -> Option<CivilDateTime> {
    match (date_fields(date), clock_fields(time)) {
        (Some((y, m, d)), Some((h, mi))) => if date_exists(y, m, d) {
            Some(CivilDateTime { year: y as u16, month: m as u8, day: d as u8, hour: h as u8, minute: mi as u8 })
        } else {
            None
        },
        _ => None,
    }
}

/// Start and end read from a whole meeting time text: token 0 (the weekday)
/// and token 2 (the separator) are passed over. A meeting must end after it
/// starts.
pub open spec fn start_end_of(s: Seq<char>) -> Result<
    (CivilDateTime, CivilDateTime),
    DateTimeError,
> {
    let t = tokens(s);
    if t.len() != 5 {
        Err(DateTimeError::UnknownFormat)
    } else {
        match civil_of(t[4], t[1]) {
            None => Err(DateTimeError::InvalidStart),
            Some(start) => match civil_of(t[4], t[3]) {
                None => Err(DateTimeError::InvalidEnd),
                Some(end) => if precedes(start, end) {
                    Ok((start, end))
                } else {
                    Err(DateTimeError::EndNotAfterStart)
                },
            },
        }
    }
}

/// Relies on chrono's `NaiveDate::from_ymd_opt`, which returns `None` exactly
/// when the month or day is invalid, the day does not exist, or the year is out
/// of its range (years 0 to 9999 are all in range).
#[verifier::external_body]
fn calendar_day_exists(year: i32, month: u32, day: u32) -> (r: bool)
    requires
        0 <= year <= 9999,
    ensures
        r == date_exists(year as int, month as int, day as int),
{
    chrono::NaiveDate::from_ymd_opt(year, month, day).is_some()
}

fn digit_at(t: &str, i: usize) -> (r: Option<u32>)
    requires
        i < t@.len(),
    ensures
        is_digit(t@[i as int]) <==> r is Some,
        r is Some ==> r->0 == digit_value(t@[i as int]) && r->0 <= 9,
{
    let c = t.get_char(i);
    if '0' <= c && c <= '9' {
        Some(c as u32 - '0' as u32)
    } else {
        None
    }
}

/// Reads a `DD/MM/YYYY` token.
fn read_date(t: &str) -> (r: Option<(u32, u32, u32)>)
    ensures
        match date_fields(t@) {
            Some((y, m, d)) => r == Some((y as u32, m as u32, d as u32)) && y <= 9999 && m <= 99
                && d <= 99,
            None => r is None,
        },
{
    if t.unicode_len() != 10 || t.get_char(2) != '/' || t.get_char(5) != '/' {
        return None;
    }
    let d0 = digit_at(t, 0);
    let d1 = digit_at(t, 1);
    let m0 = digit_at(t, 3);
    let m1 = digit_at(t, 4);
    let y0 = digit_at(t, 6);
    let y1 = digit_at(t, 7);
    let y2 = digit_at(t, 8);
    let y3 = digit_at(t, 9);
    match (d0, d1, m0, m1, y0, y1, y2, y3) {
        (Some(d0), Some(d1), Some(m0), Some(m1), Some(y0), Some(y1), Some(y2), Some(y3)) => {
            Some((y0 * 1000 + y1 * 100 + y2 * 10 + y3, m0 * 10 + m1, d0 * 10 + d1))
        },
        _ => None,
    }
}

/// Reads an `H:MMAM` or `HH:MMPM` token as hour (0 to 23) and minute.
fn read_clock(t: &str) -> (r: Option<(u32, u32)>)
    ensures
        match clock_fields(t@) {
            Some((h, mi)) => r == Some((h as u32, mi as u32)) && h <= 23 && mi <= 59,
            None => r is None,
        },
{
    let n = t.unicode_len();
    if n != 6 && n != 7 {
        return None;
    }
    let w = n - 6;
    if t.get_char(w + 1) != ':' {
        return None;
    }
    let a = t.get_char(w + 4);
    let m = t.get_char(w + 5);
    let am = (a == 'A' || a == 'a') && (m == 'M' || m == 'm');
    let pm = (a == 'P' || a == 'p') && (m == 'M' || m == 'm');
    if !am && !pm {
        return None;
    }
    let h12 = if w == 1 {
        match (digit_at(t, 0), digit_at(t, 1)) {
            (Some(h0), Some(h1)) => h0 * 10 + h1,
            _ => return None,
        }
    } else {
        match digit_at(t, 0) {
            Some(h) => h,
            None => return None,
        }
    };
    let minute = match (digit_at(t, w + 2), digit_at(t, w + 3)) {
        (Some(m0), Some(m1)) => m0 * 10 + m1,
        _ => return None,
    };
    if h12 < 1 || h12 > 12 || minute > 59 {
        return None;
    }
    let hour = if pm {
        if h12 == 12 {
            12
        } else {
            h12 + 12
        }
    } else {
        if h12 == 12 {
            0
        } else {
            h12
        }
    };
    Some((hour, minute))
}

/// Reads the moment named by a date token and a time token.
pub fn parse_civil(date: &str, time: &str) -> (r: Option<CivilDateTime>)
    ensures
        r == civil_of(date@, time@),
{
    match (read_date(date), read_clock(time)) {
        (Some((y, m, d)), Some((h, mi))) => {
            if calendar_day_exists(y as i32, m, d) {
                Some(
                    CivilDateTime {
                        year: y as u16,
                        month: m as u8,
                        day: d as u8,
                        hour: h as u8,
                        minute: mi as u8,
                    },
                )
            } else {
                None
            }
        },
        _ => None,
    }
}

/// Reads start and end out of a meeting time text such as
/// `Mo 9:00AM - 11:00AM 15/01/2024`.
pub fn try_parse_string_to_start_end_dt(input: &str) -> (r: Result<
    (CivilDateTime, CivilDateTime),
    DateTimeError,
>)
    ensures
        r == start_end_of(input@),
{
    let parts = split_tokens(input);
    proof {
        assert(parts@.len() == tokens(input@).len());
    }
    if parts.len() != 5 {
        return Err(DateTimeError::UnknownFormat);
    }
    proof {
        assert(parts@[1]@ == tokens(input@)[1]);
        assert(parts@[3]@ == tokens(input@)[3]);
        assert(parts@[4]@ == tokens(input@)[4]);
    }
    let start = match parse_civil(parts[4].as_str(), parts[1].as_str()) {
        Some(v) => v,
        None => return Err(DateTimeError::InvalidStart),
    };
    let end = match parse_civil(parts[4].as_str(), parts[3].as_str()) {
        Some(v) => v,
        None => return Err(DateTimeError::InvalidEnd),
    };
    if !start.is_before(&end) {
        return Err(DateTimeError::EndNotAfterStart);
    }
    Ok((start, end))
}

/// The character of a digit from 0 to 9.
pub open spec fn digit_char(n: int) -> char {
    if n == 0 {
        '0'
    } else if n == 1 {
        '1'
    } else if n == 2 {
        '2'
    } else if n == 3 {
        '3'
    } else if n == 4 {
        '4'
    } else if n == 5 {
        '5'
    } else if n == 6 {
        '6'
    } else if n == 7 {
        '7'
    } else if n == 8 {
        '8'
    } else {
        '9'
    }
}

/// The date of `dt` written as `DD/MM/YYYY`.
pub open spec fn date_text(dt: CivilDateTime) -> Seq<char> {
    let (y, m, d) = (dt.year as int, dt.month as int, dt.day as int);
    seq![
        digit_char(d / 10),
        digit_char(d % 10),
        '/',
        digit_char(m / 10),
        digit_char(m % 10),
        '/',
        digit_char(y / 1000),
        digit_char((y / 100) % 10),
        digit_char((y / 10) % 10),
        digit_char(y % 10),
    ]
}

/// The time of `dt` written on a 12-hour clock as `HH:MMAM` or `HH:MMPM`.
pub open spec fn clock_text(dt: CivilDateTime) -> Seq<char> {
    let h = dt.hour as int;
    let h12 = if h % 12 == 0 {
        12
    } else {
        h % 12
    };
    let mi = dt.minute as int;
    seq![
        digit_char(h12 / 10),
        digit_char(h12 % 10),
        ':',
        digit_char(mi / 10),
        digit_char(mi % 10),
        if h >= 12 {
            'P'
        } else {
            'A'
        },
        'M',
    ]
}

/// A moment that the meeting time grammar can name.
pub open spec fn is_valid_civil(dt: CivilDateTime) -> bool {
    &&& dt.year <= 9999
    &&& date_exists(dt.year as int, dt.month as int, dt.day as int)
    &&& dt.hour <= 23
    &&& dt.minute <= 59
}

proof fn lemma_digit(n: int)
    requires
        0 <= n <= 9,
    ensures
        is_digit(digit_char(n)),
        digit_value(digit_char(n)) == n,
{
}

proof fn lemma_four_digits(y: int)
    requires
        0 <= y <= 9999,
    ensures
        0 <= y / 1000 <= 9,
        (y / 1000) * 1000 + ((y / 100) % 10) * 100 + ((y / 10) % 10) * 10 + y % 10 == y,
{
    assert((y / 1000) * 1000 + ((y / 100) % 10) * 100 + ((y / 10) % 10) * 10 + y % 10 == y)
        by (nonlinear_arith)
        requires
            0 <= y <= 9999,
    ;
    assert(0 <= y / 1000 <= 9) by (nonlinear_arith)
        requires
            0 <= y <= 9999,
    ;
}

#[verifier::rlimit(40)]
proof fn lemma_date_round_trip(dt: CivilDateTime)
    requires
        dt.year <= 9999,
        dt.month <= 99,
        dt.day <= 99,
    ensures
        date_fields(date_text(dt)) == Some((dt.year as int, dt.month as int, dt.day as int)),
{
    let (y, m, d) = (dt.year as int, dt.month as int, dt.day as int);
    lemma_digit(d / 10);
    lemma_digit(d % 10);
    lemma_digit(m / 10);
    lemma_digit(m % 10);
    lemma_digit(y / 1000);
    lemma_digit((y / 100) % 10);
    lemma_digit((y / 10) % 10);
    lemma_digit(y % 10);
    lemma_four_digits(y);
    assert((m / 10) * 10 + m % 10 == m);
    assert((d / 10) * 10 + d % 10 == d);
    let t = date_text(dt);
    assert(t.len() == 10);
    assert(is_digit(t[0]) && is_digit(t[1]) && t[2] == '/' && is_digit(t[3]) && is_digit(t[4])
        && t[5] == '/' && is_digit(t[6]) && is_digit(t[7]) && is_digit(t[8]) && is_digit(t[9]));
    assert(digit_value(t[6]) * 1000 + digit_value(t[7]) * 100 + digit_value(t[8]) * 10
        + digit_value(t[9]) == y);
    assert(digit_value(t[3]) * 10 + digit_value(t[4]) == m);
    assert(digit_value(t[0]) * 10 + digit_value(t[1]) == d);
}

proof fn lemma_clock_round_trip(dt: CivilDateTime)
    requires
        dt.hour <= 23,
        dt.minute <= 59,
    ensures
        clock_fields(clock_text(dt)) == Some((dt.hour as int, dt.minute as int)),
{
    let h = dt.hour as int;
    let h12 = if h % 12 == 0 {
        12
    } else {
        h % 12
    };
    let mi = dt.minute as int;
    lemma_digit(h12 / 10);
    lemma_digit(h12 % 10);
    lemma_digit(mi / 10);
    lemma_digit(mi % 10);
    let c = clock_text(dt);
    assert(c.len() == 7);
    assert(h12 / 10 * 10 + h12 % 10 == h12);
    assert(mi / 10 * 10 + mi % 10 == mi);
    assert(hour_24(h12, h >= 12) == h);
    assert(is_pm(c[5], c[6]) == (h >= 12));
    assert(is_am(c[5], c[6]) == (h < 12));
}

/// Writing a valid moment with the pattern `DD/MM/YYYY` and `HH:MMAM` and
/// reading it back gives the same moment.
pub proof fn lemma_civil_round_trip(dt: CivilDateTime)
    requires
        is_valid_civil(dt),
    ensures
        civil_of(date_text(dt), clock_text(dt)) == Some(dt),
{
    lemma_date_round_trip(dt);
    lemma_clock_round_trip(dt);
}

/// Minutes since midnight of a time token; 0 when it is not one.
pub open spec fn minute_of_day(t: Seq<char>) -> int {
    match clock_fields(t) {
        Some((h, mi)) => h * 60 + mi,
        None => 0,
    }
}

/// A meeting time text of five tokens whose date and times are valid, and
/// whose end time is later in the day than its start time, is read as a start
/// strictly before its end; each of them, written again with the same
/// pattern, reads back as itself.
pub proof fn lemma_valid_text_reads(s: Seq<char>)
    requires
        tokens(s).len() == 5,
        civil_of(tokens(s)[4], tokens(s)[1]) is Some,
        civil_of(tokens(s)[4], tokens(s)[3]) is Some,
        minute_of_day(tokens(s)[1]) < minute_of_day(tokens(s)[3]),
    ensures
        match start_end_of(s) {
            Ok((a, b)) => {
                &&& precedes(a, b)
                &&& civil_of(date_text(a), clock_text(a)) == Some(a)
                &&& civil_of(date_text(b), clock_text(b)) == Some(b)
            },
            Err(_) => false,
        },
{
    let t = tokens(s);
    let a = civil_of(t[4], t[1])->0;
    let b = civil_of(t[4], t[3])->0;
    assert(start_end_of(s) == Ok::<(CivilDateTime, CivilDateTime), DateTimeError>((a, b)));
    lemma_civil_round_trip(a);
    lemma_civil_round_trip(b);
}

/// Whatever the text, a start and end that it is read as has the start
/// strictly before the end.
pub proof fn lemma_read_start_before_end(s: Seq<char>)
    ensures
        match start_end_of(s) {
            Ok((a, b)) => precedes(a, b),
            Err(_) => true,
        },
{
}

/// A text of any other number of tokens than five is refused as of unknown format.
pub proof fn lemma_wrong_token_count(s: Seq<char>)
    requires
        tokens(s).len() != 5,
    ensures
        start_end_of(s) == Err::<(CivilDateTime, CivilDateTime), DateTimeError>(
            DateTimeError::UnknownFormat,
        ),
{
}

} // verus!
