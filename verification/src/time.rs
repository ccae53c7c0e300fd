//! Instants as seconds since the Unix epoch: conversion from civil dates,
//! the date-string grammars the feeds use, and normalization of raw epoch
//! numbers given in seconds or milliseconds.

use vstd::prelude::*;

use crate::digits::{digit_val, digits_val, is_digit};

verus! {

/// A leap year of the Gregorian calendar.
pub open spec fn is_leap_year(y: int) -> bool {
    y % 4 == 0 && (y % 100 != 0 || y % 400 == 0)
}

/// Days in a year.
pub open spec fn days_in_year(y: int) -> int {
    if is_leap_year(y) {
        366
    } else {
        365
    }
}

/// Days in a month, one-based.
pub open spec fn days_in_month(y: int, m: int) -> int {
    if m == 2 {
        if is_leap_year(y) {
            29
        } else {
            28
        }
    } else if m == 4 || m == 6 || m == 9 || m == 11 {
        30
    } else {
        31
    }
}

/// Days of the years from 1970 up to the start of year `y`.
pub open spec fn days_before_year(y: int) -> int
    decreases y when y >= 1970
{
    if y <= 1970 {
        0
    } else {
        days_before_year(y - 1) + days_in_year(y - 1)
    }
}

/// Days of the months of year `y` before month `m`, one-based.
pub open spec fn days_before_month(y: int, m: int) -> int
    decreases m when m >= 1
{
    if m <= 1 {
        0
    } else {
        days_before_month(y, m - 1) + days_in_month(y, m - 1)
    }
}

/// A calendar date this module accepts: epoch year or later.
pub open spec fn valid_date(y: int, m: int, d: int) -> bool {
    1970 <= y <= 9999 && 1 <= m <= 12 && 1 <= d <= days_in_month(y, m)
}

/// A time of day.
pub open spec fn valid_time(h: int, mi: int, s: int) -> bool {
    0 <= h <= 23 && 0 <= mi <= 59 && 0 <= s <= 59
}

/// Seconds since the Unix epoch of a civil date and time, UTC.
pub open spec fn unix_of_civil(y: int, m: int, d: int, h: int, mi: int, s: int) -> int {
    (days_before_year(y) + days_before_month(y, m) + (d - 1)) * 86400 + h * 3600 + mi * 60 + s
}

/// Whether a year is a leap year.
pub fn leap_year(y: u64) -> (r: bool)
    ensures
        r == is_leap_year(y as int),
{
    y % 4 == 0 && (y % 100 != 0 || y % 400 == 0)
}

/// Days in a month of a year.
pub fn month_days(y: u64, m: u64) -> (r: u64)
    requires
        1 <= m <= 12,
    ensures
        r == days_in_month(y as int, m as int),
        28 <= r <= 31,
{
    if m == 2 {
        if leap_year(y) {
            29
        } else {
            28
        }
    } else if m == 4 || m == 6 || m == 9 || m == 11 {
        30
    } else {
        31
    }
}

/// Converts a civil date and time, UTC, to seconds since the Unix epoch.
pub fn unix_from_civil(y: u64, m: u64, d: u64, h: u64, mi: u64, s: u64) -> (r: i64)
    requires
        valid_date(y as int, m as int, d as int),
        valid_time(h as int, mi as int, s as int),
    ensures
        r == unix_of_civil(y as int, m as int, d as int, h as int, mi as int, s as int),
        0 <= r <= 300000000000,
{
    let mut days: u64 = 0;
    let mut year: u64 = 1970;
    while year < y
        invariant
            1970 <= year <= y <= 9999,
            days == days_before_year(year as int),
            days <= 366 * (year - 1970),
        decreases y - year,
    {
        days = days + if leap_year(year) {
            366
        } else {
            365
        };
        year = year + 1;
    }
    let mut month: u64 = 1;
    while month < m
        invariant
            1970 <= y <= 9999,
            1 <= month <= m <= 12,
            days == days_before_year(y as int) + days_before_month(y as int, month as int),
            days <= 366 * 8029 + 31 * month,
        decreases m - month,
    {
        days = days + month_days(y, month);
        month = month + 1;
    }
    let days_total = days + (d - 1);
    (days_total as i64) * 86400 + (h as i64) * 3600 + (mi as i64) * 60 + s as i64
}

/// The value of the two digits at `i`, defined when both are digits.
pub open spec fn two_digit_val(s: Seq<char>, i: int) -> int {
    digits_val(s.subrange(i, i + 2))
}

/// The value of the four digits at `i`, defined when all are digits.
pub open spec fn four_digit_val(s: Seq<char>, i: int) -> int {
    digits_val(s.subrange(i, i + 4))
}

/// The digits at positions `i..i+n` are all decimal digits.
pub open spec fn digits_at(s: Seq<char>, i: int, n: int) -> bool {
    forall|k: int| i <= k < i + n ==> is_digit(s[k])
}

/// A date written `YYYY-MM-DD` stands at the start of `s`.
pub open spec fn date_shape_at(s: Seq<char>) -> bool {
    &&& s.len() >= 10
    &&& digits_at(s, 0, 4)
    &&& s[4] == '-'
    &&& digits_at(s, 5, 2)
    &&& s[7] == '-'
    &&& digits_at(s, 8, 2)
    &&& valid_date(four_digit_val(s, 0), two_digit_val(s, 5), two_digit_val(s, 8))
}

/// A time written `HH:MM:SS` stands at position `i` of `s`.
pub open spec fn time_shape_at(s: Seq<char>, i: int) -> bool {
    &&& s.len() >= i + 8
    &&& digits_at(s, i, 2)
    &&& s[i + 2] == ':'
    &&& digits_at(s, i + 3, 2)
    &&& s[i + 5] == ':'
    &&& digits_at(s, i + 6, 2)
    &&& valid_time(two_digit_val(s, i), two_digit_val(s, i + 3), two_digit_val(s, i + 6))
}

/// The instant of the date at the start of `s` and the time at `i`.
pub open spec fn instant_of_shapes(s: Seq<char>, i: int) -> int {
    unix_of_civil(
        four_digit_val(s, 0),
        two_digit_val(s, 5),
        two_digit_val(s, 8),
        two_digit_val(s, i),
        two_digit_val(s, i + 3),
        two_digit_val(s, i + 6),
    )
}

/// What parsing `YYYY-MM-DD HH:MM:SS` yields: the UTC instant, defined
/// exactly when the string has that shape with a valid date and time.
pub open spec fn parse_datetime_spec(s: Seq<char>) -> Option<int> {
    if s.len() == 19 && date_shape_at(s) && s[10] == ' ' && time_shape_at(s, 11) {
        Some(instant_of_shapes(s, 11))
    } else {
        None
    }
}

/// What parsing a bare `YYYY-MM-DD` date yields: midnight UTC of that day.
pub open spec fn parse_date_spec(s: Seq<char>) -> Option<int> {
    if s.len() == 10 && date_shape_at(s) {
        Some(unix_of_civil(four_digit_val(s, 0), two_digit_val(s, 5), two_digit_val(s, 8), 0, 0, 0))
    } else {
        None
    }
}

/// Unfolds the value of four digits into its two-digit halves.
proof fn lemma_four_digit_split(s: Seq<char>, i: int)
    requires
        0 <= i,
        i + 4 <= s.len(),
    ensures
        four_digit_val(s, i) == two_digit_val(s, i) * 100 + two_digit_val(s, i + 2),
{
    let s4 = s.subrange(i, i + 4);
    let s3 = s.subrange(i, i + 3);
    let s2 = s.subrange(i, i + 2);
    let s1 = s.subrange(i, i + 1);
    let s0 = s.subrange(i, i);
    let t2 = s.subrange(i + 2, i + 4);
    let t1 = s.subrange(i + 2, i + 3);
    let t0 = s.subrange(i + 2, i + 2);
    assert(s4.drop_last() =~= s3 && s3.drop_last() =~= s2 && s2.drop_last() =~= s1
        && s1.drop_last() =~= s0);
    assert(t2.drop_last() =~= t1 && t1.drop_last() =~= t0);
    assert(digits_val(s0) == 0 && digits_val(t0) == 0);
    assert(digits_val(s1) == digit_val(s[i]));
    assert(digits_val(s2) == digit_val(s[i]) * 10 + digit_val(s[i + 1]));
    assert(digits_val(s3) == digits_val(s2) * 10 + digit_val(s[i + 2]));
    assert(digits_val(s4) == digits_val(s3) * 10 + digit_val(s[i + 3]));
    assert(digits_val(t1) == digit_val(s[i + 2]));
    assert(digits_val(t2) == digit_val(s[i + 2]) * 10 + digit_val(s[i + 3]));
}

/// Reads the two-digit value at `i`; `None` unless both are digits.
fn read_two_digits(s: &Vec<char>, i: usize) -> (r: Option<u64>)
    requires
        i + 2 <= s@.len(),
    ensures
        r matches Some(v) ==> digits_at(s@, i as int, 2) && v == two_digit_val(s@, i as int) && v
            <= 99,
        r is None ==> !digits_at(s@, i as int, 2),
{
    let _n = s.len();
    let c0 = s[i] as u32;
    let c1 = s[i + 1] as u32;
    if 48 <= c0 && c0 <= 57 && 48 <= c1 && c1 <= 57 {
        let v = (c0 - 48) as u64 * 10 + (c1 - 48) as u64;
        proof {
            let s2 = s@.subrange(i as int, i + 2);
            let s1 = s@.subrange(i as int, i + 1);
            let s0 = s@.subrange(i as int, i as int);
            assert(s2.drop_last() =~= s1 && s1.drop_last() =~= s0);
            assert(digits_val(s0) == 0);
            assert(digits_val(s1) == digit_val(s@[i as int]));
            assert(digits_val(s2) == digit_val(s@[i as int]) * 10 + digit_val(s@[i + 1]));
        }
        Some(v)
    } else {
        None
    }
}

/// Reads the four-digit value at `i`; `None` unless all four are digits.
fn read_four_digits(s: &Vec<char>, i: usize) -> (r: Option<u64>)
    requires
        i + 4 <= s@.len(),
    ensures
        r matches Some(v) ==> digits_at(s@, i as int, 4) && v == four_digit_val(s@, i as int) && v
            <= 9999,
        r is None ==> !digits_at(s@, i as int, 4),
{
    let _n = s.len();
    let hi = read_two_digits(s, i);
    let lo = read_two_digits(s, i + 2);
    match (hi, lo) {
        (Some(h), Some(l)) => {
            let v = h * 100 + l;
            proof {
                lemma_four_digit_split(s@, i as int);
            }
            Some(v)
        },
        _ => None,
    }
}

/// Reads the date at the start and the time at `t`, when both shapes hold
/// with valid values.
fn read_date_time(s: &Vec<char>, t: usize) -> (r: Option<i64>)
    requires
        s@.len() >= 10,
        t + 8 <= s@.len(),
        t >= 10,
    ensures
        r matches Some(v) ==> date_shape_at(s@) && time_shape_at(s@, t as int) && v
            == instant_of_shapes(s@, t as int) && 0 <= v <= 300000000000,
        r is None ==> !(date_shape_at(s@) && time_shape_at(s@, t as int)),
{
    let _n = s.len();
    let y = read_four_digits(s, 0);
    let mo = read_two_digits(s, 5);
    let d = read_two_digits(s, 8);
    let h = read_two_digits(s, t);
    let mi = read_two_digits(s, t + 3);
    let sec = read_two_digits(s, t + 6);
    if s[4] != '-' || s[7] != '-' || s[t + 2] != ':' || s[t + 5] != ':' {
        return None;
    }
    match (y, mo, d, h, mi, sec) {
        (Some(y), Some(mo), Some(d), Some(h), Some(mi), Some(sec)) => {
            if y < 1970 || mo < 1 || mo > 12 || d < 1 || d > month_days(y, mo) || h > 23 || mi > 59
                || sec > 59 {
                return None;
            }
            Some(unix_from_civil(y, mo, d, h, mi, sec))
        },
        _ => None,
    }
}

/// Parses a `YYYY-MM-DD HH:MM:SS` string as a UTC instant.
pub fn parse_datetime(text: &str) -> (r: Option<i64>)
    ensures
        r matches Some(v) ==> parse_datetime_spec(text@) == Some(v as int),
        r is None ==> parse_datetime_spec(text@) is None,
{
    let s = crate::text::chars_of(text);
    if s.len() != 19 {
        return None;
    }
    if s[10] != ' ' {
        return None;
    }
    read_date_time(&s, 11)
}

/// Parses a bare `YYYY-MM-DD` date as midnight UTC.
pub fn parse_date(text: &str) -> (r: Option<i64>)
    ensures
        r matches Some(v) ==> parse_date_spec(text@) == Some(v as int),
        r is None ==> parse_date_spec(text@) is None,
{
    let s = crate::text::chars_of(text);
    if s.len() != 10 {
        return None;
    }
    let y = read_four_digits(&s, 0);
    let mo = read_two_digits(&s, 5);
    let d = read_two_digits(&s, 8);
    if s[4] != '-' || s[7] != '-' {
        return None;
    }
    match (y, mo, d) {
        (Some(y), Some(mo), Some(d)) => {
            if y < 1970 || mo < 1 || mo > 12 || d < 1 || d > month_days(y, mo) {
                return None;
            }
            Some(unix_from_civil(y, mo, d, 0, 0, 0))
        },
        _ => None,
    }
}

/// Length of the maximal run of digit characters starting at `i`.
pub open spec fn digit_run(s: Seq<char>, i: int) -> nat
    decreases s.len() - i when i >= 0
{
    if i < 0 || i >= s.len() || !is_digit(s[i]) {
        0
    } else {
        1 + digit_run(s, i + 1)
    }
}

/// Where the offset of an RFC 3339 instant starts: right after the seconds,
/// or after the dot and the fraction digits.
pub open spec fn offset_pos(s: Seq<char>) -> int {
    if s.len() > 19 && s[19] == '.' {
        20 + digit_run(s, 20) as int
    } else {
        19
    }
}

/// A well-formed fraction: none at all, or a dot followed by at least one
/// digit.
pub open spec fn fraction_ok(s: Seq<char>) -> bool {
    s.len() <= 19 || s[19] != '.' || digit_run(s, 20) >= 1
}

/// What parsing an RFC 3339 instant `YYYY-MM-DDTHH:MM:SS[.frac](Z|±HH:MM)`
/// yields: the UTC instant, fraction truncated, offset applied.
pub open spec fn parse_rfc3339_spec(s: Seq<char>) -> Option<int> {
    if s.len() >= 20 && date_shape_at(s) && s[10] == 'T' && time_shape_at(s, 11) && fraction_ok(s) {
        let base = instant_of_shapes(s, 11);
        let p = offset_pos(s);
        if p + 1 == s.len() && s[p] == 'Z' {
            Some(base)
        } else if p + 6 == s.len() && (s[p] == '+' || s[p] == '-') && digits_at(s, p + 1, 2) && s[p
            + 3] == ':' && digits_at(s, p + 4, 2) && two_digit_val(s, p + 1) <= 23 && two_digit_val(
            s,
            p + 4,
        ) <= 59 {
            let offset = two_digit_val(s, p + 1) * 3600 + two_digit_val(s, p + 4) * 60;
            if s[p] == '+' {
                Some(base - offset)
            } else {
                Some(base + offset)
            }
        } else {
            None
        }
    } else {
        None
    }
}

/// Computes the length of the digit run starting at `i`.
fn digit_run_exec(s: &Vec<char>, i: usize) -> (r: usize)
    requires
        i <= s@.len(),
    ensures
        r == digit_run(s@, i as int),
        i + r <= s@.len(),
{
    let len = s.len();
    let mut j: usize = i;
    while j < len && crate::digits::is_digit_char(s[j])
        invariant
            len == s@.len(),
            i <= j <= len,
            digit_run(s@, i as int) == j - i + digit_run(s@, j as int),
        decreases len - j,
    {
        j = j + 1;
    }
    proof {
        assert(digit_run(s@, j as int) == 0);
    }
    j - i
}

/// Parses an RFC 3339 instant, truncating any fraction, applying the
/// offset.
pub fn parse_rfc3339(text: &str) -> (r: Option<i64>)
    ensures
        r matches Some(v) ==> parse_rfc3339_spec(text@) == Some(v as int),
        r is None ==> parse_rfc3339_spec(text@) is None,
{
    let s = crate::text::chars_of(text);
    let len = s.len();
    if len < 20 {
        return None;
    }
    if s[10] != 'T' {
        return None;
    }
    let base = match read_date_time(&s, 11) {
        Some(b) => b,
        None => {
            return None;
        },
    };
    let p: usize = if s[19] == '.' {
        let run = digit_run_exec(&s, 20);
        if run < 1 {
            return None;
        }
        20 + run
    } else {
        19
    };
    if len - p == 1 && s[p] == 'Z' {
        return Some(base);
    }
    if len - p == 6 && (s[p] == '+' || s[p] == '-') && s[p + 3] == ':' {
        let hh = read_two_digits(&s, p + 1);
        let mm = read_two_digits(&s, p + 4);
        match (hh, mm) {
            (Some(h), Some(m)) => {
                if h > 23 || m > 59 {
                    return None;
                }
                let offset = (h as i64) * 3600 + (m as i64) * 60;
                if s[p] == '+' {
                    Some(base - offset)
                } else {
                    Some(base + offset)
                }
            },
            _ => None,
        }
    } else {
        None
    }
}

/// The English month names, in calendar order.
pub open spec fn month_names() -> Seq<Seq<char>> {
    seq![
        "January"@,
        "February"@,
        "March"@,
        "April"@,
        "May"@,
        "June"@,
        "July"@,
        "August"@,
        "September"@,
        "October"@,
        "November"@,
        "December"@,
    ]
}

/// The one-based number of the first month whose name is `name`, scanning
/// from index `i`.
pub open spec fn month_number_from(name: Seq<char>, i: int) -> Option<int>
    decreases 12 - i when 0 <= i
{
    if i >= 12 {
        None
    } else if month_names()[i] == name {
        Some(i + 1)
    } else {
        month_number_from(name, i + 1)
    }
}

/// What parsing a date written with a month name, like `June 9, 2023`,
/// yields: midnight UTC of that day, defined exactly when the month name,
/// the one- or two-digit day, and the four-digit year form a valid date.
pub open spec fn parse_month_date_spec(s: Seq<char>) -> Option<int> {
    match crate::text::first_match_from(s, seq![' '], 0) {
        Some(sp) => {
            let name = s.subrange(0, sp);
            let rest = s.subrange(sp + 1, s.len() as int);
            match month_number_from(name, 0) {
                Some(m) => month_date_of(rest, m),
                None => None,
            }
        },
        None => None,
    }
}

/// The instant of `D, YYYY` (or `DD, YYYY`) in the given month.
pub open spec fn month_date_of(rest: Seq<char>, month: int) -> Option<int> {
    let run = digit_run(rest, 0) as int;
    if 1 <= run <= 2 && rest.len() == run + 6 && rest[run] == ',' && rest[run + 1] == ' '
        && digits_at(rest, run + 2, 4) {
        let day = digits_val(rest.subrange(0, run));
        let year = four_digit_val(rest, run + 2);
        if valid_date(year, month, day) {
            Some(unix_of_civil(year, month, day, 0, 0, 0))
        } else {
            None
        }
    } else {
        None
    }
}

/// The month names as string slices, in the order of [`month_names`].
fn month_name_list() -> (r: Vec<&'static str>)
    ensures
        r@.len() == 12,
        forall|i: int| 0 <= i < 12 ==> r@[i]@ == month_names()[i],
{
    let mut r: Vec<&'static str> = Vec::new();
    r.push("January");
    r.push("February");
    r.push("March");
    r.push("April");
    r.push("May");
    r.push("June");
    r.push("July");
    r.push("August");
    r.push("September");
    r.push("October");
    r.push("November");
    r.push("December");
    r
}

/// Parses a date written with a month name, like `June 9, 2023`, as
/// midnight UTC.
pub fn parse_month_date(text: &str) -> (r: Option<i64>)
    ensures
        r matches Some(v) ==> parse_month_date_spec(text@) == Some(v as int),
        r is None ==> parse_month_date_spec(text@) is None,
{
    let s = crate::text::chars_of(text);
    let space = crate::text::chars_of(" ");
    proof {
        reveal_strlit(" ");
        assert(space@ =~= seq![' ']);
    }
    let sp = match crate::text::find_from(&s, &space, 0) {
        Some(i) => i,
        None => {
            return None;
        },
    };
    let slen = s.len();
    let name = crate::text::sub_chars(&s, 0, sp);
    let rest = crate::text::sub_chars(&s, sp + 1, slen);
    let names = month_name_list();
    let mut month: u64 = 0;
    let mut m: usize = 0;
    while m < 12 && month == 0
        invariant
            names@.len() == 12,
            forall|i: int| 0 <= i < 12 ==> names@[i]@ == month_names()[i],
            m <= 12,
            month <= 12,
            month == 0 ==> month_number_from(name@, 0) == month_number_from(name@, m as int),
            month != 0 ==> month_number_from(name@, 0) == Some(month as int),
        decreases 12 - m + (if month == 0 {
            1int
        } else {
            0int
        }),
    {
        let nv = crate::text::chars_of(names[m]);
        if crate::text::eq_chars(&nv, &name) {
            month = m as u64 + 1;
        } else {
            m = m + 1;
        }
    }
    if month == 0 {
        return None;
    }
    proof {
        assert(1 <= month <= 12);
        assert(parse_month_date_spec(text@) == month_date_of(rest@, month as int));
    }
    // Read `D, YYYY` or `DD, YYYY` from the remainder.
    let rlen = rest.len();
    let run = digit_run_exec(&rest, 0);
    if run < 1 || run > 2 || rlen != run + 6 {
        return None;
    }
    if rest[run] != ',' || rest[run + 1] != ' ' {
        return None;
    }
    let day_digits = crate::text::sub_chars(&rest, 0, run);
    let day = match crate::digits::parse_uint(&day_digits, 99) {
        Some(v) => v,
        None => {
            proof {
                lemma_digit_run_digits(rest@, 0, run as int);
                assert(crate::digits::all_digits(day_digits@));
                crate::digits::lemma_digits_val_prefix(day_digits@, day_digits@.len() as int);
                assert(day_digits@.subrange(0, day_digits@.len() as int) =~= day_digits@);
                assert(crate::digits::digits_val(day_digits@) <= 99) by {
                    lemma_two_digit_bound(day_digits@);
                };
                assert(false);
            }
            return None;
        },
    };
    let year = match read_four_digits(&rest, run + 2) {
        Some(v) => v,
        None => {
            return None;
        },
    };
    proof {
        assert(day_digits@ =~= rest@.subrange(0, run as int));
    }
    if year < 1970 || day < 1 || day > month_days(year, month) {
        return None;
    }
    Some(unix_from_civil(year, month, day, 0, 0, 0))
}

/// The characters of a digit run are digits.
proof fn lemma_digit_run_digits(s: Seq<char>, i: int, r: int)
    requires
        0 <= i <= s.len(),
        r == digit_run(s, i),
    ensures
        forall|k: int| i <= k < i + r ==> is_digit(s[k]),
    decreases s.len() - i,
{
    if i < s.len() && is_digit(s[i]) {
        lemma_digit_run_digits(s, i + 1, r - 1);
    }
}

/// A digit string of at most two digits is at most 99.
proof fn lemma_two_digit_bound(s: Seq<char>)
    requires
        s.len() <= 2,
        forall|i: int| 0 <= i < s.len() ==> is_digit(s[i]),
    ensures
        0 <= digits_val(s) <= 99,
{
    if s.len() == 1 {
        assert(digits_val(s.drop_last()) == 0);
        assert(digits_val(s) == digits_val(s.drop_last()) * 10 + digit_val(s.last()));
        assert(is_digit(s[0]));
    } else if s.len() == 2 {
        let p = s.drop_last();
        assert(digits_val(p.drop_last()) == 0);
        assert(digits_val(p) == digits_val(p.drop_last()) * 10 + digit_val(p.last()));
        assert(digits_val(s) == digits_val(p) * 10 + digit_val(s.last()));
        assert(is_digit(s[0]) && is_digit(s[1]));
        assert(p.last() == s[0]);
    }
}

/// An epoch number that can only be milliseconds: more than ten digits.
pub open spec fn looks_like_millis(ts: int) -> bool {
    ts > 9999999999
}

/// Normalizes a raw epoch number to seconds: a value too large to be
/// seconds is taken as milliseconds.
pub fn normalize_epoch(ts: i64) -> (r: i64)
    requires
        ts >= 0,
    ensures
        looks_like_millis(ts as int) ==> r == ts as int / 1000,
        !looks_like_millis(ts as int) ==> r == ts,
{
    if ts > 9999999999 {
        ts / 1000
    } else {
        ts
    }
}

/// The instant now, in seconds since the Unix epoch.
///
/// Relies on `chrono::Utc::now`: the clock reading depends on the machine,
/// so nothing is promised of the value.
#[verifier::external_body]
pub fn now_unix() -> (r: i64)
{
    chrono::Utc::now().timestamp()
}

} // verus!
