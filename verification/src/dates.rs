//! Publish-timestamp parsing: the two date-time shapes feed dialects
//! carry — Atom's `published` (an RFC 3339 date-time) and RSS's
//! `pubDate` (an RFC 822-style date-time with English month and
//! weekday names) — evaluated to UTC epoch seconds.
//!
//! Both parsers are total: an input outside the grammar yields `None`,
//! never a panic. Calendar arithmetic follows the standard civil
//! calendar (proleptic Gregorian), over years 1 through 9999.

use vstd::prelude::*;
use crate::text::chars_of;

verus! {

pub open spec fn is_digit(c: char) -> bool {
    ('0' as u32) <= (c as u32) <= ('9' as u32)
}

pub open spec fn digit_val(c: char) -> int {
    (c as u32) - ('0' as u32)
}

/// Every position of `[from, to)` holds a decimal digit.
pub open spec fn digits_at(s: Seq<char>, from: int, to: int) -> bool {
    forall|i: int| from <= i < to ==> is_digit(#[trigger] s[i])
}

/// The value of the digit run `[from, to)`.
pub open spec fn num_at(s: Seq<char>, from: int, to: int) -> int
    decreases to - from,
{
    if to <= from {
        0
    } else {
        num_at(s, from, to - 1) * 10 + digit_val(s[to - 1])
    }
}

pub open spec fn pow10(k: int) -> int
    decreases k,
{
    if k <= 0 {
        1
    } else {
        10 * pow10(k - 1)
    }
}

proof fn lemma_pow10_pos(k: int)
    ensures
        pow10(k) >= 1,
    decreases
            if k > 0 {
                k
            } else {
                0
            },
{
    if k > 0 {
        lemma_pow10_pos(k - 1);
    }
}

proof fn lemma_pow10_mono(a: int, b: int)
    requires
        a <= b,
    ensures
        pow10(a) <= pow10(b),
    decreases b - a,
{
    if a < b {
        lemma_pow10_mono(a, b - 1);
        lemma_pow10_pos(b - 1);
    }
}

proof fn lemma_num_at_bound(s: Seq<char>, from: int, to: int)
    requires
        from <= to,
        digits_at(s, from, to),
    ensures
        0 <= num_at(s, from, to) < pow10(to - from),
    decreases to - from,
{
    if to > from {
        lemma_num_at_bound(s, from, to - 1);
        assert(is_digit(s[to - 1]));
        assert(0 <= digit_val(s[to - 1]) <= 9);
    }
}

pub open spec fn is_leap_year(y: int) -> bool {
    (y % 4 == 0 && y % 100 != 0) || y % 400 == 0
}

pub open spec fn days_in_month(y: int, m: int) -> int {
    if m == 1 || m == 3 || m == 5 || m == 7 || m == 8 || m == 10 || m == 12 {
        31
    } else if m == 4 || m == 6 || m == 9 || m == 11 {
        30
    } else if is_leap_year(y) {
        29
    } else {
        28
    }
}

/// A civil calendar date this library accepts: years 1 through 9999,
/// the day within the month's length.
pub open spec fn valid_civil(y: int, m: int, d: int) -> bool {
    1 <= y <= 9999 && 1 <= m <= 12 && 1 <= d <= days_in_month(y, m)
}

/// Days since 1970-01-01 of the civil date `(y, m, d)`, by the
/// standard era decomposition of the proleptic Gregorian calendar
/// (negative before the epoch).
pub open spec fn days_from_civil(y: int, m: int, d: int) -> int
    recommends
        valid_civil(y, m, d),
{
    let yy = if m <= 2 {
        y - 1
    } else {
        y
    };
    let era = yy / 400;
    let yoe = yy - era * 400;
    let mp = if m > 2 {
        m - 3
    } else {
        m + 9
    };
    let doy = (153 * mp + 2) / 5 + d - 1;
    let doe = yoe * 365 + yoe / 4 - yoe / 100 + doy;
    era * 146097 + doe - 719468
}

/// UTC epoch seconds of the civil date-time `(y, m, d, hh, mm, ss)`.
pub open spec fn civil_secs(y: int, m: int, d: int, hh: int, mm: int, ss: int) -> int {
    days_from_civil(y, m, d) * 86400 + hh * 3600 + mm * 60 + ss
}

fn is_digit_exec(c: char) -> (r: bool)
    ensures
        r == is_digit(c),
{
    let u = c as u32;
    48 <= u && u <= 57
}

/// The value of the digit run `[from, to)` of `v`, or `None` when a
/// position there holds no digit.
fn parse_num(v: &Vec<char>, from: usize, to: usize) -> (r: Option<u32>)
    requires
        from <= to <= v@.len(),
        to - from <= 4,
    ensures
        r is Some <==> digits_at(v@, from as int, to as int),
        r matches Some(n) ==> n == num_at(v@, from as int, to as int),
{
    let mut acc: u32 = 0;
    let mut i = from;
    while i < to
        invariant
            from <= i <= to <= v@.len(),
            to - from <= 4,
            digits_at(v@, from as int, i as int),
            acc == num_at(v@, from as int, i as int),
        decreases to - i,
    {
        if !is_digit_exec(v[i]) {
            return None;
        }
        proof {
            lemma_num_at_bound(v@, from as int, i as int);
            lemma_pow10_mono(i - from, 3);
            assert(pow10(3) == 1000) by {
                reveal_with_fuel(pow10, 4);
            }
        }
        acc = acc * 10 + ((v[i] as u32) - 48);
        i = i + 1;
    }
    Some(acc)
}

fn is_leap_year_exec(y: u32) -> (r: bool)
    ensures
        r == is_leap_year(y as int),
{
    (y % 4 == 0 && y % 100 != 0) || y % 400 == 0
}

fn days_in_month_exec(y: u32, m: u32) -> (r: u32)
    requires
        1 <= m <= 12,
    ensures
        r == days_in_month(y as int, m as int),
{
    if m == 1 || m == 3 || m == 5 || m == 7 || m == 8 || m == 10 || m == 12 {
        31
    } else if m == 4 || m == 6 || m == 9 || m == 11 {
        30
    } else if is_leap_year_exec(y) {
        29
    } else {
        28
    }
}

fn days_from_civil_exec(y: u32, m: u32, d: u32) -> (r: i64)
    requires
        valid_civil(y as int, m as int, d as int),
    ensures
        r == days_from_civil(y as int, m as int, d as int),
        -719469 <= r <= 3000000,
{
    let yy: u64 = if m <= 2 {
        (y - 1) as u64
    } else {
        y as u64
    };
    assert(yy <= 9999);
    let era: u64 = yy / 400;
    let yoe: u64 = yy - era * 400;
    proof {
        assert(era * 400 <= yy && yoe < 400) by (nonlinear_arith)
            requires
                era == yy / 400,
                yoe == yy - era * 400,
                yy <= 9999,
        ;
    }
    let mp: u64 = if m > 2 {
        (m - 3) as u64
    } else {
        (m + 9) as u64
    };
    assert(mp <= 11);
    let doy: u64 = (153 * mp + 2) / 5 + (d as u64) - 1;
    assert(doy <= 366);
    let doe: u64 = yoe * 365 + yoe / 4 - yoe / 100 + doy;
    proof {
        assert(yoe * 365 <= 399 * 365 && yoe / 100 <= yoe / 4 + yoe * 365) by (nonlinear_arith)
            requires
                yoe < 400,
        ;
    }
    assert(doe <= 146462);
    assert(era <= 24);
    let total: u64 = era * 146097 + doe;
    assert(total <= 24 * 146097 + 146462);
    (total as i64) - 719468
}

/// The end of the digit run of `s` that starts at `i`.
pub open spec fn digit_run_end(s: Seq<char>, i: int) -> int
    decreases s.len() - i,
{
    if i < 0 || i >= s.len() || !is_digit(s[i]) {
        i
    } else {
        digit_run_end(s, i + 1)
    }
}

proof fn lemma_digit_run_end(s: Seq<char>, i: int, j: int)
    requires
        0 <= i <= j <= s.len(),
        forall|k: int| i <= k < j ==> is_digit(#[trigger] s[k]),
        j == s.len() || !is_digit(s[j]),
    ensures
        digit_run_end(s, i) == j,
    decreases j - i,
{
    if i < j {
        lemma_digit_run_end(s, i + 1, j);
    }
}

/// Where the zone offset of an RFC 3339 string begins: right after the
/// seconds, or after the fractional-seconds run when one is present.
pub open spec fn offset_start(s: Seq<char>) -> int {
    if s.len() > 19 && s[19] == '.' {
        digit_run_end(s, 20)
    } else {
        19
    }
}

/// A fractional-seconds part, when present, holds at least one digit.
pub open spec fn frac_ok(s: Seq<char>) -> bool {
    (s.len() > 19 && s[19] == '.') ==> digit_run_end(s, 20) > 20
}

/// The zone offset in seconds, read at position `p`: `Z` (either
/// case) for UTC, or a signed `HH:MM`. `None` when neither shape ends
/// the string there.
pub open spec fn offset_secs_at(s: Seq<char>, p: int) -> Option<int> {
    if p < s.len() && (s[p] == 'Z' || s[p] == 'z') && s.len() == p + 1 {
        Some(0)
    } else if p >= 0 && p + 6 == s.len() && (s[p] == '+' || s[p] == '-') && digits_at(s, p + 1, p + 3)
        && s[p + 3] == ':' && digits_at(s, p + 4, p + 6) && num_at(s, p + 1, p + 3) <= 23 && num_at(
        s,
        p + 4,
        p + 6,
    ) <= 59 {
        let mag = num_at(s, p + 1, p + 3) * 3600 + num_at(s, p + 4, p + 6) * 60;
        Some(
            if s[p] == '-' {
                -mag
            } else {
                mag
            },
        )
    } else {
        None
    }
}

/// The fixed positions of an RFC 3339 date-time all check out:
/// `YYYY-MM-DDTHH:MM:SS`, the date valid civil, the time in range.
pub open spec fn rfc3339_fixed_ok(s: Seq<char>) -> bool {
    &&& s.len() >= 19
    &&& digits_at(s, 0, 4)
    &&& s[4] == '-'
    &&& digits_at(s, 5, 7)
    &&& s[7] == '-'
    &&& digits_at(s, 8, 10)
    &&& (s[10] == 'T' || s[10] == 't')
    &&& digits_at(s, 11, 13)
    &&& s[13] == ':'
    &&& digits_at(s, 14, 16)
    &&& s[16] == ':'
    &&& digits_at(s, 17, 19)
    &&& valid_civil(num_at(s, 0, 4), num_at(s, 5, 7), num_at(s, 8, 10))
    &&& num_at(s, 11, 13) <= 23
    &&& num_at(s, 14, 16) <= 59
    &&& num_at(s, 17, 19) <= 59
}

/// The UTC epoch seconds an RFC 3339 date-time denotes, or `None`
/// when `s` is outside the grammar. A fractional-seconds part is
/// accepted and ignored.
pub open spec fn spec_rfc3339_epoch(s: Seq<char>) -> Option<int> {
    if rfc3339_fixed_ok(s) && frac_ok(s) && offset_secs_at(s, offset_start(s)) is Some {
        Some(
            civil_secs(
                num_at(s, 0, 4),
                num_at(s, 5, 7),
                num_at(s, 8, 10),
                num_at(s, 11, 13),
                num_at(s, 14, 16),
                num_at(s, 17, 19),
            ) - offset_secs_at(s, offset_start(s)).unwrap(),
        )
    } else {
        None
    }
}

/// Reads the signed `HH:MM` or `Z` zone offset beginning at `p`.
fn parse_offset(v: &Vec<char>, p: usize) -> (r: Option<i64>)
    requires
        p <= v@.len(),
    ensures
        r is Some <==> offset_secs_at(v@, p as int) is Some,
        r matches Some(o) ==> offset_secs_at(v@, p as int) == Some(o as int),
        r matches Some(o) ==> -86400 < o < 86400,
{
    if p < v.len() && (v[p] == 'Z' || v[p] == 'z') && v.len() == p + 1 {
        return Some(0);
    }
    if v.len() - p == 6 && (v[p] == '+' || v[p] == '-') && v[p + 3] == ':' {
        let hh = match parse_num(v, p + 1, p + 3) {
            Some(n) => n,
            None => {
                return None;
            },
        };
        let mm = match parse_num(v, p + 4, p + 6) {
            Some(n) => n,
            None => {
                return None;
            },
        };
        if hh <= 23 && mm <= 59 {
            let mag: i64 = (hh as i64) * 3600 + (mm as i64) * 60;
            if v[p] == '-' {
                return Some(-mag);
            } else {
                return Some(mag);
            }
        }
        return None;
    }
    None
}

/// Parses an RFC 3339 date-time (Atom's `published`) to UTC epoch
/// seconds. Total: `None` for anything outside the grammar.
pub fn parse_rfc3339(s: &str) -> (r: Option<i64>)
    ensures
        r is Some <==> spec_rfc3339_epoch(s@) is Some,
        r matches Some(t) ==> spec_rfc3339_epoch(s@) == Some(t as int),
{
    let v = chars_of(s);
    if v.len() < 19 {
        return None;
    }
    if !(v[4] == '-' && v[7] == '-' && (v[10] == 'T' || v[10] == 't') && v[13] == ':' && v[16]
        == ':') {
        return None;
    }
    let y = match parse_num(&v, 0, 4) {
        Some(n) => n,
        None => {
            return None;
        },
    };
    let m = match parse_num(&v, 5, 7) {
        Some(n) => n,
        None => {
            return None;
        },
    };
    let d = match parse_num(&v, 8, 10) {
        Some(n) => n,
        None => {
            return None;
        },
    };
    let hh = match parse_num(&v, 11, 13) {
        Some(n) => n,
        None => {
            return None;
        },
    };
    let mm = match parse_num(&v, 14, 16) {
        Some(n) => n,
        None => {
            return None;
        },
    };
    let ss = match parse_num(&v, 17, 19) {
        Some(n) => n,
        None => {
            return None;
        },
    };
    proof {
        lemma_num_at_bound(v@, 0, 4);
        lemma_num_at_bound(v@, 5, 7);
        lemma_num_at_bound(v@, 8, 10);
        lemma_num_at_bound(v@, 11, 13);
        lemma_num_at_bound(v@, 14, 16);
        lemma_num_at_bound(v@, 17, 19);
        assert(pow10(2) == 100 && pow10(4) == 10000) by {
            reveal_with_fuel(pow10, 5);
        }
    }
    if y < 1 || m < 1 || m > 12 || d < 1 {
        return None;
    }
    if d > days_in_month_exec(y, m) {
        return None;
    }
    if hh > 23 || mm > 59 || ss > 59 {
        return None;
    }
    // Skip an optional fractional-seconds run.
    let p: usize;
    if v.len() > 19 && v[19] == '.' {
        let mut j: usize = 20;
        while j < v.len() && is_digit_exec(v[j])
            invariant
                20 <= j <= v@.len(),
                forall|k: int| 20 <= k < j ==> is_digit(#[trigger] v@[k]),
            decreases v@.len() - j,
        {
            j = j + 1;
        }
        proof {
            lemma_digit_run_end(v@, 20, j as int);
        }
        if j == 20 {
            return None;
        }
        p = j;
    } else {
        p = 19;
    }
    assert(p == offset_start(s@));
    let offset = match parse_offset(&v, p) {
        Some(o) => o,
        None => {
            return None;
        },
    };
    let days = days_from_civil_exec(y, m, d);
    assert(-1000000 <= days <= 4000000);
    let secs: i64 = days * 86400 + (hh as i64) * 3600 + (mm as i64) * 60 + (ss as i64);
    Some(secs - offset)
}

/// The month a three-letter English abbreviation names, 1 through 12,
/// or 0 when the letters name none.
pub open spec fn month_num(a: char, b: char, c: char) -> int {
    if a == 'J' && b == 'a' && c == 'n' {
        1
    } else if a == 'F' && b == 'e' && c == 'b' {
        2
    } else if a == 'M' && b == 'a' && c == 'r' {
        3
    } else if a == 'A' && b == 'p' && c == 'r' {
        4
    } else if a == 'M' && b == 'a' && c == 'y' {
        5
    } else if a == 'J' && b == 'u' && c == 'n' {
        6
    } else if a == 'J' && b == 'u' && c == 'l' {
        7
    } else if a == 'A' && b == 'u' && c == 'g' {
        8
    } else if a == 'S' && b == 'e' && c == 'p' {
        9
    } else if a == 'O' && b == 'c' && c == 't' {
        10
    } else if a == 'N' && b == 'o' && c == 'v' {
        11
    } else if a == 'D' && b == 'e' && c == 'c' {
        12
    } else {
        0
    }
}

/// A three-letter English weekday abbreviation. The weekday is parsed
/// but not checked against the date.
pub open spec fn is_weekday_abbr(a: char, b: char, c: char) -> bool {
    ||| (a == 'M' && b == 'o' && c == 'n')
    ||| (a == 'T' && b == 'u' && c == 'e')
    ||| (a == 'W' && b == 'e' && c == 'd')
    ||| (a == 'T' && b == 'h' && c == 'u')
    ||| (a == 'F' && b == 'r' && c == 'i')
    ||| (a == 'S' && b == 'a' && c == 't')
    ||| (a == 'S' && b == 'u' && c == 'n')
}

/// The zone offset of an RFC 822-style date-time, read at position
/// `p`: `Z` for UTC, or a signed `HHMM` or `HH:MM`.
pub open spec fn rfc822_offset_at(s: Seq<char>, p: int) -> Option<int> {
    if p < s.len() && (s[p] == 'Z' || s[p] == 'z') && s.len() == p + 1 {
        Some(0)
    } else if p >= 0 && p + 5 == s.len() && (s[p] == '+' || s[p] == '-') && digits_at(s, p + 1, p + 5)
        && num_at(s, p + 1, p + 3) <= 23 && num_at(s, p + 3, p + 5) <= 59 {
        let mag = num_at(s, p + 1, p + 3) * 3600 + num_at(s, p + 3, p + 5) * 60;
        Some(
            if s[p] == '-' {
                -mag
            } else {
                mag
            },
        )
    } else {
        offset_secs_at(s, p)
    }
}

/// The fixed positions of an RFC 822-style date-time check out:
/// `WWW, DD MMM YYYY HH:MM:SS` with English abbreviations, the date
/// valid civil, the time in range.
pub open spec fn rfc822_fixed_ok(s: Seq<char>) -> bool {
    &&& s.len() >= 26
    &&& is_weekday_abbr(s[0], s[1], s[2])
    &&& s[3] == ','
    &&& s[4] == ' '
    &&& digits_at(s, 5, 7)
    &&& s[7] == ' '
    &&& month_num(s[8], s[9], s[10]) != 0
    &&& s[11] == ' '
    &&& digits_at(s, 12, 16)
    &&& s[16] == ' '
    &&& digits_at(s, 17, 19)
    &&& s[19] == ':'
    &&& digits_at(s, 20, 22)
    &&& s[22] == ':'
    &&& digits_at(s, 23, 25)
    &&& s[25] == ' '
    &&& valid_civil(num_at(s, 12, 16), month_num(s[8], s[9], s[10]), num_at(s, 5, 7))
    &&& num_at(s, 17, 19) <= 23
    &&& num_at(s, 20, 22) <= 59
    &&& num_at(s, 23, 25) <= 59
}

/// The UTC epoch seconds an RFC 822-style date-time (RSS's `pubDate`)
/// denotes, or `None` when `s` is outside the grammar.
pub open spec fn spec_rfc822_epoch(s: Seq<char>) -> Option<int> {
    if rfc822_fixed_ok(s) && rfc822_offset_at(s, 26) is Some {
        Some(
            civil_secs(
                num_at(s, 12, 16),
                month_num(s[8], s[9], s[10]),
                num_at(s, 5, 7),
                num_at(s, 17, 19),
                num_at(s, 20, 22),
                num_at(s, 23, 25),
            ) - rfc822_offset_at(s, 26).unwrap(),
        )
    } else {
        None
    }
}

fn month_num_exec(a: char, b: char, c: char) -> (r: u32)
    ensures
        r == month_num(a, b, c),
        r <= 12,
{
    if a == 'J' && b == 'a' && c == 'n' {
        1
    } else if a == 'F' && b == 'e' && c == 'b' {
        2
    } else if a == 'M' && b == 'a' && c == 'r' {
        3
    } else if a == 'A' && b == 'p' && c == 'r' {
        4
    } else if a == 'M' && b == 'a' && c == 'y' {
        5
    } else if a == 'J' && b == 'u' && c == 'n' {
        6
    } else if a == 'J' && b == 'u' && c == 'l' {
        7
    } else if a == 'A' && b == 'u' && c == 'g' {
        8
    } else if a == 'S' && b == 'e' && c == 'p' {
        9
    } else if a == 'O' && b == 'c' && c == 't' {
        10
    } else if a == 'N' && b == 'o' && c == 'v' {
        11
    } else if a == 'D' && b == 'e' && c == 'c' {
        12
    } else {
        0
    }
}

fn is_weekday_abbr_exec(a: char, b: char, c: char) -> (r: bool)
    ensures
        r == is_weekday_abbr(a, b, c),
{
    (a == 'M' && b == 'o' && c == 'n') || (a == 'T' && b == 'u' && c == 'e') || (a == 'W' && b
        == 'e' && c == 'd') || (a == 'T' && b == 'h' && c == 'u') || (a == 'F' && b == 'r' && c
        == 'i') || (a == 'S' && b == 'a' && c == 't') || (a == 'S' && b == 'u' && c == 'n')
}

fn parse_rfc822_offset(v: &Vec<char>, p: usize) -> (r: Option<i64>)
    requires
        p <= v@.len(),
    ensures
        r is Some <==> rfc822_offset_at(v@, p as int) is Some,
        r matches Some(o) ==> rfc822_offset_at(v@, p as int) == Some(o as int),
        r matches Some(o) ==> -86400 < o < 86400,
{
    if p < v.len() && (v[p] == 'Z' || v[p] == 'z') && v.len() == p + 1 {
        return Some(0);
    }
    if v.len() - p == 5 && (v[p] == '+' || v[p] == '-') {
        let hh = match parse_num(v, p + 1, p + 3) {
            Some(n) => n,
            None => {
                return None;
            },
        };
        let mm = match parse_num(v, p + 3, p + 5) {
            Some(n) => n,
            None => {
                return None;
            },
        };
        if hh <= 23 && mm <= 59 {
            let mag: i64 = (hh as i64) * 3600 + (mm as i64) * 60;
            if v[p] == '-' {
                return Some(-mag);
            } else {
                return Some(mag);
            }
        }
        return None;
    }
    parse_offset(v, p)
}

/// Parses an RFC 822-style date-time (RSS's `pubDate`) to UTC epoch
/// seconds. Total: `None` for anything outside the grammar.
pub fn parse_rfc822(s: &str) -> (r: Option<i64>)
    ensures
        r is Some <==> spec_rfc822_epoch(s@) is Some,
        r matches Some(t) ==> spec_rfc822_epoch(s@) == Some(t as int),
{
    let v = chars_of(s);
    if v.len() < 26 {
        return None;
    }
    if !is_weekday_abbr_exec(v[0], v[1], v[2]) {
        return None;
    }
    if !(v[3] == ',' && v[4] == ' ' && v[7] == ' ' && v[11] == ' ' && v[16] == ' ' && v[19] == ':'
        && v[22] == ':' && v[25] == ' ') {
        return None;
    }
    let m = month_num_exec(v[8], v[9], v[10]);
    if m == 0 {
        return None;
    }
    let d = match parse_num(&v, 5, 7) {
        Some(n) => n,
        None => {
            return None;
        },
    };
    let y = match parse_num(&v, 12, 16) {
        Some(n) => n,
        None => {
            return None;
        },
    };
    let hh = match parse_num(&v, 17, 19) {
        Some(n) => n,
        None => {
            return None;
        },
    };
    let mm = match parse_num(&v, 20, 22) {
        Some(n) => n,
        None => {
            return None;
        },
    };
    let ss = match parse_num(&v, 23, 25) {
        Some(n) => n,
        None => {
            return None;
        },
    };
    proof {
        lemma_num_at_bound(v@, 5, 7);
        lemma_num_at_bound(v@, 12, 16);
        lemma_num_at_bound(v@, 17, 19);
        lemma_num_at_bound(v@, 20, 22);
        lemma_num_at_bound(v@, 23, 25);
        assert(pow10(2) == 100 && pow10(4) == 10000) by {
            reveal_with_fuel(pow10, 5);
        }
    }
    if y < 1 || d < 1 {
        return None;
    }
    if d > days_in_month_exec(y, m) {
        return None;
    }
    if hh > 23 || mm > 59 || ss > 59 {
        return None;
    }
    let offset = match parse_rfc822_offset(&v, 26) {
        Some(o) => o,
        None => {
            return None;
        },
    };
    let days = days_from_civil_exec(y, m, d);
    assert(-1000000 <= days <= 4000000);
    let secs: i64 = days * 86400 + (hh as i64) * 3600 + (mm as i64) * 60 + (ss as i64);
    Some(secs - offset)
}

} // verus!
