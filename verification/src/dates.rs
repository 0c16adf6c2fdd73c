//! Calendar dates written as `YYYY-MM-DD`.
use vstd::prelude::*;

use crate::error::DbCommandError;
use crate::num::is_digit;
use crate::text::{chars_of, concat, string_of, trim, trim_chars};

verus! {

/// Gregorian leap year (divisibility does not depend on the sign of the year).
pub open spec fn is_leap_year(year: int) -> bool {
    let a = if year < 0 {
        -year
    } else {
        year
    };
    (a % 4 == 0 && a % 100 != 0) || a % 400 == 0
}

/// Days in `month` of `year`; 0 for a month outside 1..=12.
pub open spec fn month_days(year: int, month: int) -> int {
    if month == 1 || month == 3 || month == 5 || month == 7 || month == 8 || month == 10 || month
        == 12 {
        31
    } else if month == 4 || month == 6 || month == 9 || month == 11 {
        30
    } else if month == 2 {
        if is_leap_year(year) {
            29
        } else {
            28
        }
    } else {
        0
    }
}

/// The value of the ASCII digit `c`.
pub open spec fn digit_value(c: char) -> int {
    (c as u32) - 48
}

/// The year written by the first four digits of `t`.
pub open spec fn year_of(t: Seq<char>) -> int {
    1000 * digit_value(t[0]) + 100 * digit_value(t[1]) + 10 * digit_value(t[2]) + digit_value(t[3])
}

/// The month written by digits 5 and 6 of `t`.
pub open spec fn month_of(t: Seq<char>) -> int {
    10 * digit_value(t[5]) + digit_value(t[6])
}

/// The day written by digits 8 and 9 of `t`.
pub open spec fn day_of(t: Seq<char>) -> int {
    10 * digit_value(t[8]) + digit_value(t[9])
}

/// `value`, once trimmed, is exactly `YYYY-MM-DD`: four ASCII digits, `-`, two
/// ASCII digits, `-`, two ASCII digits, naming a month 1..=12 and a day of it.
pub open spec fn is_iso_date(value: Seq<char>) -> bool {
    let t = trim(value);
    &&& t.len() == 10
    &&& t[4] == '-'
    &&& t[7] == '-'
    &&& forall|i: int| 0 <= i < 10 && i != 4 && i != 7 ==> is_digit(#[trigger] t[i])
    &&& 1 <= month_of(t) <= 12
    &&& 1 <= day_of(t) <= month_days(year_of(t), month_of(t))
}

/// The message of the error for an invalid date labelled `label`.
pub open spec fn invalid_date_text(label: Seq<char>) -> Seq<char> {
    label + " must be a valid date (YYYY-MM-DD)"@
}

/// Whether `year` is a leap year.
fn is_leap(year: i32) -> (r: bool)
    ensures
        r == is_leap_year(year as int),
{
    let a: i64 = if year < 0 {
        -(year as i64)
    } else {
        year as i64
    };
    (a % 4 == 0 && a % 100 != 0) || a % 400 == 0
}

/// Days in `month` of `year` (0 when the month is out of range).
fn days_in_month(year: i32, month: u32) -> (r: u32)
    ensures
        r == month_days(year as int, month as int),
{
    match month {
        1 | 3 | 5 | 7 | 8 | 10 | 12 => 31,
        4 | 6 | 9 | 11 => 30,
        2 => if is_leap(year) {
            29
        } else {
            28
        },
        _ => 0,
    }
}

/// The validation error for an invalid date labelled `label`.
fn invalid_date(label: &str) -> (e: DbCommandError)
    ensures
        e matches DbCommandError::Validation { message } && message@ == invalid_date_text(label@),
{
    let a = chars_of(label);
    let b = chars_of(" must be a valid date (YYYY-MM-DD)");
    let m = concat(&a, &b);
    DbCommandError::Validation { message: string_of(&m) }
}

/// Requires `value` to be a calendar date `YYYY-MM-DD` (strictly zero-padded).
pub fn require_iso_date(label: &str, value: &str) -> (r: Result<(), DbCommandError>)
    ensures
        r is Ok <==> is_iso_date(value@),
        r matches Err(e) ==> (e matches DbCommandError::Validation { message } && message@
            == invalid_date_text(label@)),
{
    let raw = chars_of(value);
    let t = trim_chars(&raw);
    if t.len() != 10 || t[4] != '-' || t[7] != '-' {
        return Err(invalid_date(label));
    }
    let mut k: usize = 0;
    while k < 10
        invariant
            t@ == trim(value@),
            t@.len() == 10,
            t@[4] == '-',
            t@[7] == '-',
            k <= 10,
            forall|i: int| 0 <= i < k && i != 4 && i != 7 ==> is_digit(#[trigger] t@[i]),
        decreases 10 - k,
    {
        if k != 4 && k != 7 {
            let c = t[k];
            if !('0' <= c && c <= '9') {
                assert(!is_digit(t@[k as int]));
                return Err(invalid_date(label));
            }
        }
        k = k + 1;
    }
    assert(is_digit(t@[0]) && is_digit(t@[1]) && is_digit(t@[2]) && is_digit(t@[3]));
    assert(is_digit(t@[5]) && is_digit(t@[6]) && is_digit(t@[8]) && is_digit(t@[9]));
    let y: u32 = 1000 * (t[0] as u32 - 48) + 100 * (t[1] as u32 - 48) + 10 * (t[2] as u32 - 48)
        + (t[3] as u32 - 48);
    let m: u32 = 10 * (t[5] as u32 - 48) + (t[6] as u32 - 48);
    let d: u32 = 10 * (t[8] as u32 - 48) + (t[9] as u32 - 48);
    let y = y as i32;
    if m == 0 || m > 12 || d == 0 || d > days_in_month(y, m) {
        return Err(invalid_date(label));
    }
    Ok(())
}

/// The trimmed text of `value` is shaped `DDDD-DD-DD` (digits and two dashes).
pub open spec fn date_shaped(value: Seq<char>) -> bool {
    let t = trim(value);
    &&& t.len() == 10
    &&& t[4] == '-'
    &&& t[7] == '-'
    &&& forall|i: int| 0 <= i < 10 && i != 4 && i != 7 ==> is_digit(#[trigger] t[i])
}

/// Calendar facts of the accepted dates: a `YYYY-MM-DD` text is a date exactly
/// when its month is 1..=12 and its day is 1..=28, or 29 in any month but a
/// February of a common year, or 30 in any month but February, or 31 in January,
/// March, May, July, August, October or December. A year is a leap year when
/// divisible by 4 but not by 100, or divisible by 400.
pub proof fn law_month_lengths(value: Seq<char>)
    requires
        date_shaped(value),
    ensures
        is_iso_date(value) <==> ({
            let t = trim(value);
            let y = year_of(t);
            let m = month_of(t);
            let d = day_of(t);
            let leap = (y % 4 == 0 && y % 100 != 0) || y % 400 == 0;
            &&& 1 <= m <= 12
            &&& 1 <= d
            &&& {
                ||| d <= 28
                ||| d == 29 && (m != 2 || leap)
                ||| d == 30 && m != 2
                ||| d == 31 && (m == 1 || m == 3 || m == 5 || m == 7 || m == 8 || m == 10
                    || m == 12)
            }
        }),
{
    let t = trim(value);
    assert(is_digit(t[0]) && is_digit(t[1]) && is_digit(t[2]) && is_digit(t[3]));
    assert(0 <= year_of(t));
}

/// No shaped text with a day past 31 is a date, and April, June, September and
/// November have no 31st.
pub proof fn law_no_day_past_month_end(value: Seq<char>)
    requires
        date_shaped(value),
        ({
            let t = trim(value);
            let m = month_of(t);
            let d = day_of(t);
            d > 31 || (d == 31 && (m == 4 || m == 6 || m == 9 || m == 11)) || (m == 2 && d > 29)
        }),
    ensures
        !is_iso_date(value),
{
    law_month_lengths(value);
}

} // verus!
