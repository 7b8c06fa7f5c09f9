//! Calendar arithmetic on "YYYY-MM-DD" dates (proleptic Gregorian calendar).
use vstd::prelude::*;

use crate::arith::{tdiv, trem};
use crate::text::{
    all_digits, digits_value, is_digit, lemma_nat_digits_props, parse_int, parse_nat, repeat_char,
    nat_digits, pad_left, parse_i32_in, parse_i32_spec, parse_u32_in, parse_u32_spec,
    push_pad_left, split_ranges, split_seq, str_chars, string_from_chars, u64_chars,
};

verus! {

broadcast use vstd::string::group_string_axioms;

// ---------------------------------------------------------------------------
// Parsing
// ---------------------------------------------------------------------------

/// What `parse_ymd` accepts: three `-`-separated fields that parse as `i32`, `u32`, `u32`,
/// with the month in 1..=12 and the day in 1..=31.
pub open spec fn spec_parse_ymd(s: Seq<char>) -> Option<(i32, u32, u32)> {
    let parts = split_seq(s, '-');
    if parts.len() != 3 {
        None
    } else {
        match (parse_i32_spec(parts[0]), parse_u32_spec(parts[1]), parse_u32_spec(parts[2])) {
            (Some(y), Some(m), Some(d)) => if 1 <= m <= 12 && 1 <= d <= 31 {
                Some((y, m, d))
            } else {
                None
            },
            _ => None,
        }
    }
}

/// Parse "YYYY-MM-DD" into (year, month, day).
pub fn parse_ymd(date: &str) -> (r: Option<(i32, u32, u32)>)
    ensures
        r == spec_parse_ymd(date@),
{
    let s = str_chars(date);
    parse_ymd_chars(&s)
}

pub fn parse_ymd_chars(s: &Vec<char>) -> (r: Option<(i32, u32, u32)>)
    ensures
        r == spec_parse_ymd(s@),
{
    assert(s@.subrange(0, s.len() as int) =~= s@);
    parse_ymd_in(s, 0, s.len())
}

/// `parse_ymd` on the characters `s[lo..hi]`.
pub fn parse_ymd_in(s: &Vec<char>, lo: usize, hi: usize) -> (r: Option<(i32, u32, u32)>)
    requires
        lo <= hi <= s.len(),
    ensures
        r == spec_parse_ymd(s@.subrange(lo as int, hi as int)),
{
    let parts = split_ranges(s, lo, hi, '-');
    let ghost ps = split_seq(s@.subrange(lo as int, hi as int), '-');
    if parts.len() != 3 {
        return None;
    }
    let (a0, b0) = parts[0];
    let (a1, b1) = parts[1];
    let (a2, b2) = parts[2];
    assert(lo <= parts@[0].0 <= parts@[0].1 <= hi);
    assert(lo <= parts@[1].0 <= parts@[1].1 <= hi);
    assert(lo <= parts@[2].0 <= parts@[2].1 <= hi);
    assert(ps[0] == s@.subrange(a0 as int, b0 as int));
    assert(ps[1] == s@.subrange(a1 as int, b1 as int));
    assert(ps[2] == s@.subrange(a2 as int, b2 as int));
    let y = parse_i32_in(s, a0, b0);
    let m = parse_u32_in(s, a1, b1);
    let d = parse_u32_in(s, a2, b2);
    match (y, m, d) {
        (Some(y), Some(m), Some(d)) => {
            if 1 <= m && m <= 12 && 1 <= d && d <= 31 {
                Some((y, m, d))
            } else {
                None
            }
        },
        _ => None,
    }
}

// ---------------------------------------------------------------------------
// Day of week
// ---------------------------------------------------------------------------

/// Month offsets of Sakamoto's day-of-week method.
pub open spec fn sakamoto_offset(month: int) -> int {
    if month == 1 {
        0
    } else if month == 2 {
        3
    } else if month == 3 {
        2
    } else if month == 4 {
        5
    } else if month == 5 {
        0
    } else if month == 6 {
        3
    } else if month == 7 {
        5
    } else if month == 8 {
        1
    } else if month == 9 {
        4
    } else if month == 10 {
        6
    } else if month == 11 {
        2
    } else {
        4
    }
}

fn sakamoto_offset_exec(month: u32) -> (r: i32)
    requires
        1 <= month <= 12,
    ensures
        r == sakamoto_offset(month as int),
{
    match month {
        1 => 0,
        2 => 3,
        3 => 2,
        4 => 5,
        5 => 0,
        6 => 3,
        7 => 5,
        8 => 1,
        9 => 4,
        10 => 6,
        11 => 2,
        _ => 4,
    }
}

pub open spec fn in_i32(v: int) -> bool {
    i32::MIN <= v <= i32::MAX
}

/// The sum of Sakamoto's method, before reduction modulo 7.
pub open spec fn sakamoto_sum(year: int, month: int, day: u32) -> int {
    let y = if month < 3 { year - 1 } else { year };
    y + tdiv(y, 4) - tdiv(y, 100) + tdiv(y, 400) + sakamoto_offset(month) + (day as i32) as int
}

/// The inputs on which Sakamoto's method stays within `i32` at every step (elsewhere the
/// `i32` arithmetic of `day_of_week` overflows).
pub open spec fn dow_in_range(year: int, month: int, day: u32) -> bool {
    let y = if month < 3 { year - 1 } else { year };
    &&& in_i32(y)
    &&& in_i32(y + tdiv(y, 4))
    &&& in_i32(y + tdiv(y, 4) - tdiv(y, 100))
    &&& in_i32(y + tdiv(y, 4) - tdiv(y, 100) + tdiv(y, 400))
    &&& in_i32(y + tdiv(y, 4) - tdiv(y, 100) + tdiv(y, 400) + sakamoto_offset(month))
    &&& in_i32(sakamoto_sum(year, month, day))
}

/// Whether `day_of_week(year, month, day)` stays within `i32`.
pub fn dow_in_range_exec(year: i32, month: u32, day: u32) -> (b: bool)
    requires
        1 <= month <= 12,
    ensures
        b == dow_in_range(year as int, month as int, day),
{
    let y: i64 = if month < 3 { year as i64 - 1 } else { year as i64 };
    let t: i64 = sakamoto_offset_exec(month) as i64;
    let q4: i64 = if y >= 0 { y / 4 } else { -((-y) / 4) };
    let q100: i64 = if y >= 0 { y / 100 } else { -((-y) / 100) };
    let q400: i64 = if y >= 0 { y / 400 } else { -((-y) / 400) };
    let lo: i64 = i32::MIN as i64;
    let hi: i64 = i32::MAX as i64;
    let s1 = y + q4;
    let s2 = s1 - q100;
    let s3 = s2 + q400;
    let s4 = s3 + t;
    let s5 = s4 + (day as i32) as i64;
    lo <= y && y <= hi && lo <= s1 && s1 <= hi && lo <= s2 && s2 <= hi && lo <= s3 && s3 <= hi && lo <= s4
        && s4 <= hi && lo <= s5 && s5 <= hi
}

/// Day of week, 0 = Monday .. 6 = Sunday.
pub open spec fn spec_day_of_week(year: int, month: int, day: u32) -> int {
    (trem(sakamoto_sum(year, month, day), 7) + 6) % 7
}

/// Day of week: 0=Monday..6=Sunday (Sakamoto algorithm).
pub fn day_of_week(year: i32, month: u32, day: u32) -> (r: usize)
    requires
        1 <= month <= 12,
        dow_in_range(year as int, month as int, day),
    ensures
        r as int == spec_day_of_week(year as int, month as int, day),
        r < 7,
{
    let t = sakamoto_offset_exec(month);
    let y = if month < 3 { year - 1 } else { year };
    let dow = (y + y / 4 - y / 100 + y / 400 + t + day as i32) % 7;
    ((dow + 6) % 7) as usize
}

// ---------------------------------------------------------------------------
// Formatting
// ---------------------------------------------------------------------------

/// `{:0w$}` applied to a signed number: the sign first, then zeros, then the digits.
pub open spec fn zero_pad_int(v: int, w: nat) -> Seq<char> {
    if v < 0 {
        seq!['-'] + pad_left(nat_digits((-v) as nat), if w >= 1 { (w - 1) as nat } else { 0 }, '0')
    } else {
        pad_left(nat_digits(v as nat), w, '0')
    }
}

pub open spec fn spec_format_ymd(y: int, m: nat, d: nat) -> Seq<char> {
    zero_pad_int(y, 4) + seq!['-'] + pad_left(nat_digits(m), 2, '0') + seq!['-'] + pad_left(
        nat_digits(d),
        2,
        '0',
    )
}

/// Appends `y-m-d` formatted as `{y:04}-{m:02}-{d:02}`.
pub fn push_ymd(v: &mut Vec<char>, y: i32, m: u32, d: u32)
    ensures
        final(v)@ == old(v)@ + spec_format_ymd(y as int, m as nat, d as nat),
{
    if y < 0 {
        v.push('-');
        let mag: u64 = (0i64 - y as i64) as u64;
        let digits = u64_chars(mag);
        push_pad_left(v, &digits, 3, '0');
    } else {
        let digits = u64_chars(y as u64);
        push_pad_left(v, &digits, 4, '0');
    }
    v.push('-');
    let md = u64_chars(m as u64);
    push_pad_left(v, &md, 2, '0');
    v.push('-');
    let dd = u64_chars(d as u64);
    push_pad_left(v, &dd, 2, '0');
    assert(v@ =~= old(v)@ + spec_format_ymd(y as int, m as nat, d as nat));
}

/// Format (y, m, d) as "YYYY-MM-DD".
pub fn format_ymd(y: i32, m: u32, d: u32) -> (s: String)
    ensures
        s@ == spec_format_ymd(y as int, m as nat, d as nat),
{
    let mut v: Vec<char> = Vec::new();
    push_ymd(&mut v, y, m, d);
    assert(v@ =~= spec_format_ymd(y as int, m as nat, d as nat));
    string_from_chars(&v)
}


// ---------------------------------------------------------------------------
// Julian Day Numbers
// ---------------------------------------------------------------------------

/// Julian Day Number of a Gregorian date (Fliegel and Van Flandern).
pub open spec fn spec_to_jdn(y: int, m: int, d: int) -> int {
    let a = tdiv(14 - m, 12);
    let y2 = y + 4800 - a;
    let m2 = m + 12 * a - 3;
    d + tdiv(153 * m2 + 2, 5) + 365 * y2 + tdiv(y2, 4) - tdiv(y2, 100) + tdiv(y2, 400) - 32045
}

/// Convert a Gregorian date to Julian Day Number.
pub fn to_jdn(y: i32, m: u32, d: u32) -> (r: i64)
    ensures
        r == spec_to_jdn(y as int, m as int, d as int),
{
    let y = y as i64;
    let m = m as i64;
    let d = d as i64;
    let a = (14 - m) / 12;
    let y2 = y + 4800 - a;
    let m2 = m + 12 * a - 3;
    d + (153 * m2 + 2) / 5 + 365 * y2 + y2 / 4 - y2 / 100 + y2 / 400 - 32045
}

/// The date fields that the inverse conversion computes from a day number, before the
/// final casts to `i32` and `u32`.
pub open spec fn spec_from_jdn_fields(jdn: int) -> (int, int, int) {
    let a = jdn + 32044;
    let b = tdiv(4 * a + 3, 146097);
    let c = a - tdiv(146097 * b, 4);
    let d = tdiv(4 * c + 3, 1461);
    let e = c - tdiv(1461 * d, 4);
    let m = tdiv(5 * e + 2, 153);
    let day = e - tdiv(153 * m + 2, 5) + 1;
    let month = m + 3 - 12 * tdiv(m, 10);
    let year = 100 * b + d - 4800 + tdiv(m, 10);
    (year, month, day)
}

/// The day numbers on which the inverse conversion stays within `i64`.
pub open spec fn jdn_in_range(jdn: int) -> bool {
    -0x1000_0000_0000_0000 <= jdn <= 0x1000_0000_0000_0000
}

/// Convert a Julian Day Number back to Gregorian (y, m, d).
pub fn from_jdn(jdn: i64) -> (r: (i32, u32, u32))
    requires
        jdn_in_range(jdn as int),
    ensures
        r.0 == spec_from_jdn_fields(jdn as int).0 as i32,
        r.1 == spec_from_jdn_fields(jdn as int).1 as u32,
        r.2 == spec_from_jdn_fields(jdn as int).2 as u32,
{
    let a = jdn + 32044;
    let b = (4 * a + 3) / 146097;
    let c = a - (146097 * b) / 4;
    let d = (4 * c + 3) / 1461;
    let e = c - (1461 * d) / 4;
    let m = (5 * e + 2) / 153;
    let day = (e - (153 * m + 2) / 5 + 1) as u32;
    let month = (m + 3 - 12 * (m / 10)) as u32;
    let year = (100 * b + d - 4800 + m / 10) as i32;
    (year, month, day)
}


/// The date `n` days after the given one, through day numbers (before the final casts).
pub open spec fn spec_shift_fields(y: int, m: int, d: int, n: int) -> (int, int, int) {
    spec_from_jdn_fields(spec_to_jdn(y, m, d) + n)
}

/// The date `n` days after (y, m, d), as `add_days` computes it.
pub open spec fn spec_shift_ymd(y: int, m: int, d: int, n: int) -> (i32, u32, u32) {
    let f = spec_shift_fields(y, m, d, n);
    (f.0 as i32, f.1 as u32, f.2 as u32)
}

/// The date that `add_days` starts from: the parsed date, or 1970-01-01 for unparsable text.
pub open spec fn parsed_or_epoch(s: Seq<char>) -> (i32, u32, u32) {
    match spec_parse_ymd(s) {
        Some(t) => t,
        None => (1970i32, 1u32, 1u32),
    }
}

/// What `add_days(date, n)` returns.
#[verifier::opaque]
pub open spec fn spec_add_days(s: Seq<char>, n: int) -> Seq<char> {
    let p = parsed_or_epoch(s);
    let r = spec_shift_ymd(p.0 as int, p.1 as int, p.2 as int, n);
    spec_format_ymd(r.0 as int, r.1 as nat, r.2 as nat)
}

pub(crate) proof fn lemma_to_jdn_bounds(y: i32, m: u32, d: u32)
    requires
        1 <= m <= 12,
        1 <= d <= 31,
    ensures
        -0x100_0000_0000 <= spec_to_jdn(y as int, m as int, d as int) <= 0x100_0000_0000,
{
}

/// Shifts a date by `n` days through day numbers.
pub fn shift_ymd(y: i32, m: u32, d: u32, n: i32) -> (r: (i32, u32, u32))
    requires
        1 <= m <= 12,
        1 <= d <= 31,
    ensures
        r == spec_shift_ymd(y as int, m as int, d as int, n as int),
{
    proof {
        lemma_to_jdn_bounds(y, m, d);
    }
    let jdn = to_jdn(y, m, d) + n as i64;
    from_jdn(jdn)
}

/// Add `n` days to a "YYYY-MM-DD" date string. `n` can be negative.
pub fn add_days(date: &str, n: i32) -> (r: String)
    ensures
        r@ == spec_add_days(date@, n as int),
{
    let s = str_chars(date);
    let v = add_days_chars(&s, n);
    string_from_chars(&v)
}

/// `add_days` on a character sequence.
pub fn add_days_chars(date: &Vec<char>, n: i32) -> (r: Vec<char>)
    ensures
        r@ == spec_add_days(date@, n as int),
{
    let (y, m, d) = match parse_ymd_chars(date) {
        Some(t) => t,
        None => (1970, 1, 1),
    };
    let (y2, m2, d2) = shift_ymd(y, m, d, n);
    let mut v: Vec<char> = Vec::new();
    push_ymd(&mut v, y2, m2, d2);
    proof {
        reveal(spec_add_days);
    }
    assert(v@ =~= spec_add_days(date@, n as int));
    v
}

/// The inputs on which `monday_of_week` does not overflow: text that does not parse, or a
/// parsed date whose day of week stays within `i32` arithmetic.
pub open spec fn monday_of_week_defined(s: Seq<char>) -> bool {
    match spec_parse_ymd(s) {
        Some(t) => dow_in_range(t.0 as int, t.1 as int, t.2),
        None => true,
    }
}

/// Whether `year` is a Gregorian leap year.
pub open spec fn is_leap(year: int) -> bool {
    (year % 4 == 0 && year % 100 != 0) || year % 400 == 0
}

/// Number of days in `month` (1..=12) of `year`.
pub open spec fn days_in_month(year: int, month: int) -> int {
    if month == 2 {
        if is_leap(year) { 29 } else { 28 }
    } else if month == 4 || month == 6 || month == 9 || month == 11 {
        30
    } else {
        31
    }
}

/// Whether (year, month, day) names a day of the calendar.
pub open spec fn is_real_date(year: int, month: int, day: int) -> bool {
    1 <= month <= 12 && 1 <= day <= days_in_month(year, month)
}

pub fn days_in_month_exec(year: i32, month: u32) -> (r: u32)
    requires
        1 <= month <= 12,
    ensures
        r as int == days_in_month(year as int, month as int),
{
    if month == 2 {
        let leap = (year % 4 == 0 && year % 100 != 0) || year % 400 == 0;
        assert(leap == is_leap(year as int));
        if leap { 29 } else { 28 }
    } else if month == 4 || month == 6 || month == 9 || month == 11 {
        30
    } else {
        31
    }
}

/// What `monday_of_week` returns: `None` unless the text is a date of the calendar.
pub open spec fn spec_monday_of_week(s: Seq<char>) -> Option<Seq<char>> {
    match spec_parse_ymd(s) {
        Some(t) => if !is_real_date(t.0 as int, t.1 as int, t.2 as int) {
            None
        } else {
            let dow = spec_day_of_week(t.0 as int, t.1 as int, t.2);
            Some(spec_add_days(spec_format_ymd(t.0 as int, t.1 as nat, t.2 as nat), -dow))
        },
        None => None,
    }
}

/// Return the Monday of the week containing `date` as "YYYY-MM-DD", or `None` if the
/// input is not a valid "YYYY-MM-DD" date.
///
/// Weeks are Monday-starting (matches `day_of_week` convention where 0=Monday), so a
/// Sunday rolls back six days to the previous Monday.
pub fn monday_of_week(date: &str) -> (r: Option<String>)
    requires
        monday_of_week_defined(date@),
    ensures
        match (r, spec_monday_of_week(date@)) {
            (Some(a), Some(b)) => a@ == b,
            (None, None) => true,
            _ => false,
        },
{
    let (y, m, d) = match parse_ymd(date) {
        Some(t) => t,
        None => return None,
    };
    if d > days_in_month_exec(y, m) {
        return None;
    }
    let dow = day_of_week(y, m, d) as i32;
    let formatted = format_ymd(y, m, d);
    Some(add_days(formatted.as_str(), -dow))
}


// ---------------------------------------------------------------------------
// Laws of the calendar
// ---------------------------------------------------------------------------

/// The day of the week agrees with the day number: for a date of year 1 or later,
/// `day_of_week` is the Julian Day Number modulo 7 (day number 0 was a Monday).
pub proof fn lemma_day_of_week_is_jdn_mod_7(y: int, m: int, d: u32)
    requires
        1 <= y,
        1 <= m <= 12,
        1 <= d <= 31,
    ensures
        spec_day_of_week(y, m, d) == spec_to_jdn(y, m, d as int) % 7,
        0 <= spec_day_of_week(y, m, d) < 7,
{
    let yp = if m < 3 { y - 1 } else { y };
    assert(yp >= 0);
    let s = sakamoto_sum(y, m, d);
    assert(tdiv(yp, 4) == yp / 4 && tdiv(yp, 100) == yp / 100 && tdiv(yp, 400) == yp / 400);
    assert(s == yp + yp / 4 - yp / 100 + yp / 400 + sakamoto_offset(m) + d);
    assert(s >= 0) by (nonlinear_arith)
        requires s == yp + yp / 4 - yp / 100 + yp / 400 + sakamoto_offset(m) + d, yp >= 0, d >= 1, sakamoto_offset(m) >= 0;
    assert(trem(s, 7) == s % 7);
    let a = tdiv(14 - m, 12);
    assert(a == if m < 3 { 1int } else { 0int });
    let y2 = y + 4800 - a;
    assert(y2 == yp + 4800);
    let m2 = m + 12 * a - 3;
    assert(tdiv(y2, 4) == yp / 4 + 1200 && tdiv(y2, 100) == yp / 100 + 48 && tdiv(y2, 400) == yp / 400 + 12)
        by (nonlinear_arith)
        requires y2 == yp + 4800, yp >= 0;
    let g = tdiv(153 * m2 + 2, 5);
    // The month term of the day number exceeds Sakamoto's offset by 6 modulo 7, less
    // the constant 1721119 and multiples of 7.
    assert((g - sakamoto_offset(m)) % 7 == 5) by {
        if m == 1 { assert(g == 306); } else if m == 2 { assert(g == 337); } else if m == 3 { assert(g == 0); }
        else if m == 4 { assert(g == 31); } else if m == 5 { assert(g == 61); } else if m == 6 { assert(g == 92); }
        else if m == 7 { assert(g == 122); } else if m == 8 { assert(g == 153); } else if m == 9 { assert(g == 184); }
        else if m == 10 { assert(g == 214); } else if m == 11 { assert(g == 245); } else { assert(g == 275); }
    }
    let j = spec_to_jdn(y, m, d as int);
    assert(j == s + 364 * yp + (g - sakamoto_offset(m)) + 1721119);
    assert(spec_day_of_week(y, m, d) == (s % 7 + 6) % 7);
    assert(j % 7 == (s % 7 + 6) % 7) by (nonlinear_arith)
        requires j == s + 364 * yp + (g - sakamoto_offset(m)) + 1721119, (g - sakamoto_offset(m)) % 7 == 5, s >= 0;
}


/// The calendar day after (y, m, d).
pub open spec fn next_day(y: int, m: int, d: int) -> (int, int, int) {
    if d < days_in_month(y, m) {
        (y, m, d + 1)
    } else if m < 12 {
        (y, m + 1, 1)
    } else {
        (y + 1, 1, 1)
    }
}

/// Days before March 1 of year `yp + 1` counted from March 1 of year 0 (years begin in
/// March for the day-number formula).
pub open spec fn march_years_days(yp: int) -> int {
    365 * yp + yp / 4 - yp / 100 + yp / 400
}

/// Days from March 1 to the first of month `m` (January and February counted at the end).
pub open spec fn month_start(m: int) -> int {
    if m == 1 { 306 } else if m == 2 { 337 } else if m == 3 { 0 } else if m == 4 { 31 } else if m == 5 { 61 }
    else if m == 6 { 92 } else if m == 7 { 122 } else if m == 8 { 153 } else if m == 9 { 184 }
    else if m == 10 { 214 } else if m == 11 { 245 } else { 275 }
}

proof fn lemma_jdn_decomposed(y: int, m: int, d: int)
    requires
        1 <= y,
        1 <= m <= 12,
    ensures
        spec_to_jdn(y, m, d) == d + month_start(m) + march_years_days(if m < 3 { y - 1 } else { y }) + 1721119,
{
    let yp = if m < 3 { y - 1 } else { y };
    let a = tdiv(14 - m, 12);
    assert(a == if m < 3 { 1int } else { 0int });
    let y2 = y + 4800 - a;
    assert(tdiv(y2, 4) == yp / 4 + 1200 && tdiv(y2, 100) == yp / 100 + 48 && tdiv(y2, 400) == yp / 400 + 12)
        by (nonlinear_arith)
        requires y2 == yp + 4800, yp >= 0;
    let m2 = m + 12 * a - 3;
    assert(tdiv(153 * m2 + 2, 5) == month_start(m));
}

proof fn lemma_march_year_step(y: int)
    requires
        1 <= y,
    ensures
        march_years_days(y) - march_years_days(y - 1) == if is_leap(y) { 366int } else { 365int },
{
    assert(y / 4 - (y - 1) / 4 == if y % 4 == 0 { 1int } else { 0int }) by (nonlinear_arith)
        requires y >= 1;
    assert(y / 100 - (y - 1) / 100 == if y % 100 == 0 { 1int } else { 0int }) by (nonlinear_arith)
        requires y >= 1;
    assert(y / 400 - (y - 1) / 400 == if y % 400 == 0 { 1int } else { 0int }) by (nonlinear_arith)
        requires y >= 1;
    assert(y % 100 == 0 ==> y % 4 == 0) by (nonlinear_arith);
    assert(y % 400 == 0 ==> y % 100 == 0) by (nonlinear_arith);
}

/// Consecutive days of the calendar have consecutive day numbers.
pub proof fn lemma_next_day_number(y: int, m: int, d: int)
    requires
        1 <= y,
        is_real_date(y, m, d),
    ensures
        spec_to_jdn(next_day(y, m, d).0, next_day(y, m, d).1, next_day(y, m, d).2) == spec_to_jdn(y, m, d) + 1,
{
    let (y1, m1, d1) = next_day(y, m, d);
    lemma_jdn_decomposed(y, m, d);
    lemma_jdn_decomposed(y1, m1, d1);
    if d >= days_in_month(y, m) && m == 2 {
        lemma_march_year_step(y);
    }
}

/// The day after a date falls on the next day of the week.
pub proof fn lemma_next_day_weekday(y: int, m: int, d: int)
    requires
        1 <= y,
        is_real_date(y, m, d),
    ensures
        spec_day_of_week(next_day(y, m, d).0, next_day(y, m, d).1, next_day(y, m, d).2 as u32)
            == (spec_day_of_week(y, m, d as u32) + 1) % 7,
{
    let (y1, m1, d1) = next_day(y, m, d);
    lemma_next_day_number(y, m, d);
    lemma_day_of_week_is_jdn_mod_7(y, m, d as u32);
    lemma_day_of_week_is_jdn_mod_7(y1, m1, d1 as u32);
    let j = spec_to_jdn(y, m, d);
    assert((j + 1) % 7 == (j % 7 + 1) % 7) by (nonlinear_arith);
}


/// Splitting after appending separator-free text extends the last piece.
proof fn lemma_split_append(p: Seq<char>, q: Seq<char>, sep: char)
    requires
        forall|i: int| 0 <= i < q.len() ==> q[i] != sep,
    ensures
        split_seq(p + q, sep) == split_seq(p, sep).update(
            split_seq(p, sep).len() - 1,
            split_seq(p, sep).last() + q,
        ),
        split_seq(p, sep).len() >= 1,
    decreases q.len(),
{
    crate::text::lemma_split_seq_nonempty(p, sep);
    if q.len() == 0 {
        assert(p + q =~= p);
        assert(split_seq(p, sep).last() + q =~= split_seq(p, sep).last());
        assert(split_seq(p, sep).update(split_seq(p, sep).len() - 1, split_seq(p, sep).last()) =~= split_seq(p, sep));
    } else {
        lemma_split_append(p, q.drop_last(), sep);
        assert((p + q).drop_last() =~= p + q.drop_last());
        assert((p + q).last() == q.last());
        let prev = split_seq(p + q.drop_last(), sep);
        crate::text::lemma_split_seq_nonempty(p + q.drop_last(), sep);
        assert(prev.last() == split_seq(p, sep).last() + q.drop_last());
        assert(prev.last().push(q.last()) =~= split_seq(p, sep).last() + q);
        assert(split_seq(p + q, sep) =~= split_seq(p, sep).update(
            split_seq(p, sep).len() - 1,
            split_seq(p, sep).last() + q,
        ));
    }
}

/// Splitting after appending a separator starts a new, empty piece.
proof fn lemma_split_sep(p: Seq<char>, sep: char)
    ensures
        split_seq(p.push(sep), sep) == split_seq(p, sep).push(Seq::<char>::empty()),
{
    assert(p.push(sep).drop_last() =~= p);
}

/// Three separator-free pieces joined by the separator split back into those pieces.
proof fn lemma_split_three(a: Seq<char>, b: Seq<char>, c: Seq<char>, sep: char)
    requires
        forall|i: int| 0 <= i < a.len() ==> a[i] != sep,
        forall|i: int| 0 <= i < b.len() ==> b[i] != sep,
        forall|i: int| 0 <= i < c.len() ==> c[i] != sep,
    ensures
        split_seq(a + seq![sep] + b + seq![sep] + c, sep) == seq![a, b, c],
{
    let e = Seq::<char>::empty();
    lemma_split_append(e, a, sep);
    assert(split_seq(e, sep) == seq![e]);
    assert(e + a =~= a);
    assert(split_seq(a, sep) =~= seq![a]);
    lemma_split_sep(a, sep);
    assert(a + seq![sep] =~= a.push(sep));
    assert(split_seq(a + seq![sep], sep) =~= seq![a, e]);
    lemma_split_append(a + seq![sep], b, sep);
    assert(e + b =~= b);
    assert(split_seq(a + seq![sep] + b, sep) =~= seq![a, b]);
    lemma_split_sep(a + seq![sep] + b, sep);
    assert(a + seq![sep] + b + seq![sep] =~= (a + seq![sep] + b).push(sep));
    assert(split_seq(a + seq![sep] + b + seq![sep], sep) =~= seq![a, b, e]);
    lemma_split_append(a + seq![sep] + b + seq![sep], c, sep);
    assert(split_seq(a + seq![sep] + b + seq![sep] + c, sep) =~= seq![a, b, c]);
}

/// Leading zeros add nothing to the value of a run of digits.
proof fn lemma_leading_zeros(k: nat, s: Seq<char>)
    requires
        all_digits(s),
    ensures
        all_digits(repeat_char('0', k) + s),
        digits_value(repeat_char('0', k) + s) == digits_value(s),
    decreases s.len(),
{
    let z = repeat_char('0', k);
    if s.len() == 0 {
        assert(z + s =~= z);
        lemma_zeros_value(k);
    } else {
        lemma_leading_zeros(k, s.drop_last());
        assert((z + s).drop_last() =~= z + s.drop_last());
        assert((z + s).last() == s.last());
    }
}

proof fn lemma_zeros_value(k: nat)
    ensures
        digits_value(repeat_char('0', k)) == 0,
        all_digits(repeat_char('0', k)),
    decreases k,
{
    if k > 0 {
        lemma_zeros_value((k - 1) as nat);
        assert(repeat_char('0', k).drop_last() =~= repeat_char('0', (k - 1) as nat));
    }
}

/// A number padded with zeros parses back to itself.
proof fn lemma_padded_parses(n: nat, w: nat)
    ensures
        pad_left(nat_digits(n), w, '0').len() >= 1,
        all_digits(pad_left(nat_digits(n), w, '0')),
        parse_nat(pad_left(nat_digits(n), w, '0')) == Some(n),
        parse_int(pad_left(nat_digits(n), w, '0')) == Some(n as int),
{
    lemma_nat_digits_props(n);
    let d = nat_digits(n);
    let p = pad_left(d, w, '0');
    if d.len() < w {
        lemma_leading_zeros((w - d.len()) as nat, d);
    }
    assert(is_digit(p[0]));
}

/// Formatting a date and parsing the text gives the date back, for years 0 to 9999.
pub proof fn lemma_format_then_parse(y: i32, m: u32, d: u32)
    requires
        0 <= y <= 9999,
        1 <= m <= 12,
        1 <= d <= 31,
    ensures
        spec_parse_ymd(spec_format_ymd(y as int, m as nat, d as nat)) == Some((y, m, d)),
        spec_format_ymd(y as int, m as nat, d as nat).len() == 10,
{
    let a = pad_left(nat_digits(y as nat), 4, '0');
    let b = pad_left(nat_digits(m as nat), 2, '0');
    let c = pad_left(nat_digits(d as nat), 2, '0');
    lemma_padded_parses(y as nat, 4);
    lemma_padded_parses(m as nat, 2);
    lemma_padded_parses(d as nat, 2);
    assert(forall|i: int| 0 <= i < a.len() ==> a[i] != '-') by {
        assert forall|i: int| 0 <= i < a.len() implies a[i] != '-' by { assert(is_digit(a[i])); }
    }
    assert(forall|i: int| 0 <= i < b.len() ==> b[i] != '-') by {
        assert forall|i: int| 0 <= i < b.len() implies b[i] != '-' by { assert(is_digit(b[i])); }
    }
    assert(forall|i: int| 0 <= i < c.len() ==> c[i] != '-') by {
        assert forall|i: int| 0 <= i < c.len() implies c[i] != '-' by { assert(is_digit(c[i])); }
    }
    lemma_split_three(a, b, c, '-');
    assert(spec_format_ymd(y as int, m as nat, d as nat) == a + seq!['-'] + b + seq!['-'] + c);
    // Lengths: each number has at most as many digits as its width.
    assert(nat_digits(y as nat).len() <= 4) by { lemma_digits_len(y as nat, 4); }
    assert(nat_digits(m as nat).len() <= 2) by { lemma_digits_len(m as nat, 2); }
    assert(nat_digits(d as nat).len() <= 2) by { lemma_digits_len(d as nat, 2); }
}

/// A number below `10^w` has at most `w` digits.
proof fn lemma_digits_len(n: nat, w: nat)
    requires
        w == 2 ==> n < 100,
        w == 4 ==> n < 10000,
        w == 2 || w == 4,
    ensures
        nat_digits(n).len() <= w,
{
    if n >= 10 {
        if n >= 100 {
            if n >= 1000 {
                assert(nat_digits(n / 1000).len() == 1);
                assert(nat_digits(n / 100).len() == 2);
            }
            assert(nat_digits((n / 10) / 10).len() <= 2);
        }
        assert(nat_digits(n / 10).len() <= w - 1);
    }
}


/// Converting a date of year 1 or later to its day number and back gives the date again.
pub proof fn lemma_jdn_round_trip(y: int, m: int, d: int)
    requires
        1 <= y,
        is_real_date(y, m, d),
    ensures
        spec_from_jdn_fields(spec_to_jdn(y, m, d)) == (y, m, d),
{
    lemma_jdn_decomposed(y, m, d);
    let yp = if m < 3 { y - 1 } else { y };
    let big_y = yp + 4800;
    let mm = if m >= 3 { m - 3 } else { m + 9 };
    let t = month_start(m) + d - 1;
    let b = big_y / 100;
    let r1 = big_y % 100;
    // The year part of the day number, split into centuries.
    assert(march_years_days(big_y) == march_years_days(yp) + 1753164) by (nonlinear_arith)
        requires big_y == yp + 4800, yp >= 0;
    let a = spec_to_jdn(y, m, d) + 32044;
    assert(a == march_years_days(big_y) + t);
    assert(big_y / 4 == 25 * b + r1 / 4 && big_y / 400 == b / 4 && big_y / 100 == b) by (nonlinear_arith)
        requires b == big_y / 100, r1 == big_y % 100, big_y >= 0;
    assert(a == 36524 * b + b / 4 + 365 * r1 + r1 / 4 + t) by (nonlinear_arith)
        requires
            a == 365 * big_y + big_y / 4 - big_y / 100 + big_y / 400 + t,
            big_y == 100 * b + r1,
            big_y / 4 == 25 * b + r1 / 4,
            big_y / 400 == b / 4,
            big_y / 100 == b;
    // Days within the March-based year: 366 only for a February 29.
    assert(0 <= t <= 365);
    assert(t == 365 ==> m == 2 && d == 29 && is_leap(y));
    if m == 2 && is_leap(y) {
        assert(r1 % 4 == 3 && (r1 == 99 ==> b % 4 == 3)) by (nonlinear_arith)
            requires
                y == yp + 1,
                big_y == yp + 4800,
                b == big_y / 100,
                r1 == big_y % 100,
                (y % 4 == 0 && y % 100 != 0) || y % 400 == 0;
    }
    let c = 365 * r1 + r1 / 4 + t;
    assert(0 <= c < 36525);
    // First step: whole centuries.
    let q1 = (4 * a + 3) / 146097;
    assert(q1 == b) by (nonlinear_arith)
        requires
            a == 36524 * b + b / 4 + c,
            c == 365 * r1 + r1 / 4 + t,
            0 <= r1 < 100,
            0 <= t <= 365,
            b >= 0,
            t == 365 && r1 == 99 ==> b % 4 == 3,
            q1 == (4 * a + 3) / 146097;
    assert(a - (146097 * b) / 4 == c) by (nonlinear_arith)
        requires a == 36524 * b + b / 4 + c, b >= 0;
    // Second step: years within the century.
    let q2 = (4 * c + 3) / 1461;
    assert(q2 == r1) by (nonlinear_arith)
        requires
            c == 365 * r1 + r1 / 4 + t,
            0 <= r1 < 100,
            0 <= t <= 365,
            t == 365 ==> r1 % 4 == 3,
            q2 == (4 * c + 3) / 1461;
    assert(c - (1461 * r1) / 4 == t) by (nonlinear_arith)
        requires c == 365 * r1 + r1 / 4 + t, r1 >= 0;
    // Third step: the month within the year.
    let q3 = (5 * t + 2) / 153;
    assert(q3 == mm && (153 * mm + 2) / 5 == month_start(m)) by {
        assert(1 <= d <= days_in_month(y, m));
    }
    assert(spec_from_jdn_fields(spec_to_jdn(y, m, d)) == (y, m, d)) by {
        assert(tdiv(4 * a + 3, 146097) == q1);
        assert(tdiv(146097 * b, 4) == (146097 * b) / 4);
        assert(tdiv(4 * c + 3, 1461) == q2);
        assert(tdiv(1461 * r1, 4) == (1461 * r1) / 4);
        assert(tdiv(5 * t + 2, 153) == q3);
        assert(tdiv(153 * mm + 2, 5) == (153 * mm + 2) / 5);
        assert(tdiv(mm, 10) == mm / 10);
    }
}


/// The fields that the inverse conversion gives for a non-negative day number are a month
/// and a day of the month, and converting them back gives the day number again.
pub proof fn lemma_from_jdn_round_trip(j: int)
    requires
        j >= 0,
    ensures
        1 <= spec_from_jdn_fields(j).1 <= 12,
        1 <= spec_from_jdn_fields(j).2 <= 31,
        spec_from_jdn_fields(j).0 >= -4800,
        spec_to_jdn(spec_from_jdn_fields(j).0, spec_from_jdn_fields(j).1, spec_from_jdn_fields(j).2) == j,
{
    let a = j + 32044;
    let b = (4 * a + 3) / 146097;
    assert(b >= 0 && 146097 * b <= 4 * a + 3 && 4 * a + 3 < 146097 * (b + 1)) by (nonlinear_arith)
        requires b == (4 * a + 3) / 146097, a >= 0;
    let c = a - (146097 * b) / 4;
    assert(0 <= c <= 36524 && (c == 36524 ==> b % 4 == 3)) by (nonlinear_arith)
        requires
            c == a - (146097 * b) / 4,
            146097 * b <= 4 * a + 3,
            4 * a + 3 < 146097 * (b + 1),
            b >= 0;
    let d = (4 * c + 3) / 1461;
    assert(0 <= d <= 100 && 1461 * d <= 4 * c + 3 && 4 * c + 3 < 1461 * (d + 1)) by (nonlinear_arith)
        requires d == (4 * c + 3) / 1461, 0 <= c <= 36524;
    let e = c - (1461 * d) / 4;
    assert(0 <= e <= 365 && (e == 365 ==> d % 4 == 3)) by (nonlinear_arith)
        requires
            e == c - (1461 * d) / 4,
            1461 * d <= 4 * c + 3,
            4 * c + 3 < 1461 * (d + 1),
            d >= 0;
    let m = (5 * e + 2) / 153;
    assert(0 <= m <= 11 && 153 * m <= 5 * e + 2 && 5 * e + 2 < 153 * (m + 1)) by (nonlinear_arith)
        requires m == (5 * e + 2) / 153, 0 <= e <= 365;
    let day = e - (153 * m + 2) / 5 + 1;
    let month = m + 3 - 12 * (m / 10);
    let year = 100 * b + d - 4800 + m / 10;
    assert(spec_from_jdn_fields(j) == (year, month, day)) by {
        assert(tdiv(4 * a + 3, 146097) == b);
        assert(tdiv(146097 * b, 4) == (146097 * b) / 4);
        assert(tdiv(4 * c + 3, 1461) == d);
        assert(tdiv(1461 * d, 4) == (1461 * d) / 4);
        assert(tdiv(5 * e + 2, 153) == m);
        assert(tdiv(153 * m + 2, 5) == (153 * m + 2) / 5);
        assert(tdiv(m, 10) == m / 10);
    }
    // The month index runs from March (0) to February (11).
    assert(month_start(month) == (153 * m + 2) / 5 && 1 <= day <= 31 && 1 <= month <= 12) by {
        assert(m < 10 ==> month == m + 3);
        assert(m >= 10 ==> month == m - 9);
    }
    let big_y = 100 * b + d;
    assert(march_years_days(big_y) == (146097 * b) / 4 + (1461 * d) / 4) by (nonlinear_arith)
        requires
            big_y == 100 * b + d,
            0 <= d <= 100,
            d == 100 ==> b % 4 == 3 && c == 36524,
            b >= 0;
    // `to_jdn` counts years from March, as the inverse does.
    let yp = if month < 3 { year - 1 } else { year };
    assert(yp == big_y - 4800);
    let a2 = tdiv(14 - month, 12);
    assert(a2 == if month < 3 { 1int } else { 0int });
    let y2 = year + 4800 - a2;
    assert(y2 == big_y);
    let m2 = month + 12 * a2 - 3;
    assert(m2 == m);
    assert(tdiv(y2, 4) == y2 / 4 && tdiv(y2, 100) == y2 / 100 && tdiv(y2, 400) == y2 / 400);
    assert(tdiv(153 * m2 + 2, 5) == (153 * m + 2) / 5);
}

/// Adding days composes: for a date of years 1 to 9999 written as `add_days` writes dates,
/// adding `a` days and then `b` days is adding `a + b` days, as long as every date reached
/// lies in years 0 to 9999.
pub proof fn lemma_add_days_compose(y: i32, m: u32, d: u32, a: int, b: int)
    requires
        1 <= y <= 9999,
        is_real_date(y as int, m as int, d as int),
        spec_to_jdn(y as int, m as int, d as int) + a >= 0,
        spec_to_jdn(y as int, m as int, d as int) + a + b >= 0,
        0 <= spec_from_jdn_fields(spec_to_jdn(y as int, m as int, d as int) + a).0 <= 9999,
    ensures
        spec_add_days(spec_add_days(spec_format_ymd(y as int, m as nat, d as nat), a), b)
            == spec_add_days(spec_format_ymd(y as int, m as nat, d as nat), a + b),
{
    reveal(spec_add_days);
    let j = spec_to_jdn(y as int, m as int, d as int);
    lemma_format_then_parse(y, m, d);
    let f = spec_from_jdn_fields(j + a);
    lemma_from_jdn_round_trip(j + a);
    let r = (f.0 as i32, f.1 as u32, f.2 as u32);
    assert(r.0 as int == f.0 && r.1 as int == f.1 && r.2 as int == f.2);
    lemma_format_then_parse(r.0, r.1, r.2);
    assert(parsed_or_epoch(spec_add_days(spec_format_ymd(y as int, m as nat, d as nat), a)) == r);
    assert(spec_to_jdn(r.0 as int, r.1 as int, r.2 as int) + b == j + a + b);
}

/// Adding no days to a date of years 1 to 9999 gives the same text back.
pub proof fn lemma_add_zero_days(y: i32, m: u32, d: u32)
    requires
        1 <= y <= 9999,
        is_real_date(y as int, m as int, d as int),
    ensures
        spec_add_days(spec_format_ymd(y as int, m as nat, d as nat), 0) == spec_format_ymd(y as int, m as nat, d as nat),
{
    reveal(spec_add_days);
    lemma_format_then_parse(y, m, d);
    lemma_jdn_round_trip(y as int, m as int, d as int);
}

/// Text that is not a date counts from 1970-01-01.
pub proof fn lemma_add_days_unparsable(t: Seq<char>, n: int)
    requires
        spec_parse_ymd(t) is None,
    ensures
        spec_add_days(t, n) == spec_add_days(spec_format_ymd(1970, 1, 1), n),
{
    reveal(spec_add_days);
    lemma_format_then_parse(1970, 1, 1);
}


/// Text of the form `DDDD-DD-DD`, each `D` an ASCII digit.
pub open spec fn is_date_text(s: Seq<char>) -> bool {
    &&& s.len() == 10
    &&& s[4] == '-' && s[7] == '-'
    &&& forall|i: int| 0 <= i < 10 && i != 4 && i != 7 ==> is_digit(#[trigger] s[i])
}

proof fn lemma_digit_round_trip(c: char)
    requires
        is_digit(c),
    ensures
        crate::text::digit_char(crate::text::digit_val(c)) == c,
{
}

proof fn lemma_zero_digits(a: Seq<char>)
    requires
        all_digits(a),
        digits_value(a) == 0,
    ensures
        a == repeat_char('0', a.len()),
    decreases a.len(),
{
    if a.len() > 0 {
        assert(all_digits(a.drop_last()));
        assert(digits_value(a.drop_last()) == 0 && crate::text::digit_val(a.last()) == 0);
        lemma_zero_digits(a.drop_last());
        assert(is_digit(a.last()));
        assert(a.last() == '0');
        assert forall|i: int| 0 <= i < a.len() implies a[i] == '0' by {
            if i < a.len() - 1 {
                assert(a[i] == a.drop_last()[i]);
            }
        }
        assert(a =~= repeat_char('0', a.len()));
    }
}

/// A run of digits is its value written out with leading zeros up to its length.
proof fn lemma_digits_repr(a: Seq<char>)
    requires
        a.len() >= 1,
        all_digits(a),
    ensures
        pad_left(nat_digits(digits_value(a)), a.len(), '0') == a,
    decreases a.len(),
{
    let v = digits_value(a);
    let p = a.drop_last();
    let l = a.last();
    assert(all_digits(p));
    lemma_digit_round_trip(l);
    let vp = digits_value(p);
    assert(v == vp * 10 + crate::text::digit_val(l));
    if vp == 0 {
        assert(v < 10);
        lemma_zero_digits(p);
        assert(nat_digits(v) == seq![crate::text::digit_char(v)]);
        assert(pad_left(nat_digits(v), a.len(), '0') =~= a);
    } else {
        lemma_digits_repr(p);
        assert(v >= 10);
        assert(v / 10 == vp && v % 10 == crate::text::digit_val(l)) by (nonlinear_arith)
            requires v == vp * 10 + crate::text::digit_val(l), crate::text::digit_val(l) < 10;
        assert(nat_digits(v) == nat_digits(vp).push(l));
        let q = pad_left(nat_digits(vp), p.len(), '0');
        assert(nat_digits(vp).len() <= p.len());
        assert(pad_left(nat_digits(v), a.len(), '0') =~= q.push(l));
        assert(q.push(l) =~= a);
    }
}

/// Every text of the form `DDDD-DD-DD` that parses is the formatted text of what it parses
/// to: formatting undoes parsing on such text.
pub proof fn lemma_parse_then_format(s: Seq<char>)
    requires
        is_date_text(s),
        spec_parse_ymd(s) is Some,
    ensures
        spec_format_ymd(spec_parse_ymd(s).unwrap().0 as int, spec_parse_ymd(s).unwrap().1 as nat, spec_parse_ymd(s).unwrap().2 as nat) == s,
{
    let a = s.subrange(0, 4);
    let b = s.subrange(5, 7);
    let c = s.subrange(8, 10);
    assert(s =~= a + seq!['-'] + b + seq!['-'] + c);
    assert(all_digits(a) && all_digits(b) && all_digits(c)) by {
        assert forall|i: int| 0 <= i < 4 implies is_digit(#[trigger] a[i]) by { assert(a[i] == s[i]); }
        assert forall|i: int| 0 <= i < 2 implies is_digit(#[trigger] b[i]) by { assert(b[i] == s[i + 5]); }
        assert forall|i: int| 0 <= i < 2 implies is_digit(#[trigger] c[i]) by { assert(c[i] == s[i + 8]); }
    }
    assert(forall|i: int| 0 <= i < a.len() ==> a[i] != '-');
    assert(forall|i: int| 0 <= i < b.len() ==> b[i] != '-');
    assert(forall|i: int| 0 <= i < c.len() ==> c[i] != '-');
    lemma_split_three(a, b, c, '-');
    lemma_digits_repr(a);
    lemma_digits_repr(b);
    lemma_digits_repr(c);
    assert(parse_int(a) == Some(digits_value(a) as int));
    assert(parse_nat(b) == Some(digits_value(b)));
    assert(parse_nat(c) == Some(digits_value(c)));
}

/// Dates of year 1 or later have positive day numbers.
proof fn lemma_jdn_positive(y: int, m: int, d: int)
    requires
        1 <= y,
        is_real_date(y, m, d),
    ensures
        spec_to_jdn(y, m, d) > 0,
{
    lemma_jdn_decomposed(y, m, d);
    let yp = if m < 3 { y - 1 } else { y };
    assert(march_years_days(yp) >= 0) by (nonlinear_arith)
        requires yp >= 0;
}

/// Adding days composes over the supported calendar: when the date, the date `a` days
/// later and the date `a + b` days later all lie in years 1 to 9999, adding `a` days and
/// then `b` days is adding `a + b` days.
pub proof fn lemma_add_days_compose_within_years(
    y: i32, m: u32, d: u32, a: int, b: int,
    mid: (int, int, int), end: (int, int, int),
)
    requires
        1 <= y <= 9999,
        is_real_date(y as int, m as int, d as int),
        1 <= mid.0 <= 9999,
        is_real_date(mid.0, mid.1, mid.2),
        spec_to_jdn(mid.0, mid.1, mid.2) == spec_to_jdn(y as int, m as int, d as int) + a,
        1 <= end.0 <= 9999,
        is_real_date(end.0, end.1, end.2),
        spec_to_jdn(end.0, end.1, end.2) == spec_to_jdn(y as int, m as int, d as int) + a + b,
    ensures
        spec_add_days(spec_add_days(spec_format_ymd(y as int, m as nat, d as nat), a), b)
            == spec_add_days(spec_format_ymd(y as int, m as nat, d as nat), a + b),
{
    lemma_jdn_positive(mid.0, mid.1, mid.2);
    lemma_jdn_positive(end.0, end.1, end.2);
    lemma_jdn_round_trip(mid.0, mid.1, mid.2);
    lemma_add_days_compose(y, m, d, a, b);
}

/// Going `n` days forward and `n` days back returns to the same date, when the date `n` days
/// later lies in years 1 to 9999 as the date does.
pub proof fn lemma_add_days_there_and_back(y: i32, m: u32, d: u32, n: int, mid: (int, int, int))
    requires
        1 <= y <= 9999,
        is_real_date(y as int, m as int, d as int),
        1 <= mid.0 <= 9999,
        is_real_date(mid.0, mid.1, mid.2),
        spec_to_jdn(mid.0, mid.1, mid.2) == spec_to_jdn(y as int, m as int, d as int) + n,
    ensures
        spec_add_days(spec_add_days(spec_format_ymd(y as int, m as nat, d as nat), n), -n)
            == spec_format_ymd(y as int, m as nat, d as nat),
{
    lemma_add_days_compose_within_years(y, m, d, n, -n, mid, (y as int, m as int, d as int));
    assert(n + -n == 0);
    lemma_add_zero_days(y, m, d);
}

/// 1970-01-01 is day 2440588, a Thursday.
pub proof fn lemma_epoch_day()
    ensures
        spec_to_jdn(1970, 1, 1) == 2440588,
        spec_day_of_week(1970, 1, 1) == 3,
{
    lemma_day_of_week_is_jdn_mod_7(1970, 1, 1);
}

/// Three-letter month abbreviation.
pub open spec fn spec_month_abbrev(month: u32) -> Seq<char> {
    if month == 1 {
        "Jan"@
    } else if month == 2 {
        "Feb"@
    } else if month == 3 {
        "Mar"@
    } else if month == 4 {
        "Apr"@
    } else if month == 5 {
        "May"@
    } else if month == 6 {
        "Jun"@
    } else if month == 7 {
        "Jul"@
    } else if month == 8 {
        "Aug"@
    } else if month == 9 {
        "Sep"@
    } else if month == 10 {
        "Oct"@
    } else if month == 11 {
        "Nov"@
    } else if month == 12 {
        "Dec"@
    } else {
        "???"@
    }
}

/// Three-letter month abbreviation.
pub fn month_abbrev(month: u32) -> (s: &'static str)
    ensures
        s@ == spec_month_abbrev(month),
{
    match month {
        1 => "Jan",
        2 => "Feb",
        3 => "Mar",
        4 => "Apr",
        5 => "May",
        6 => "Jun",
        7 => "Jul",
        8 => "Aug",
        9 => "Sep",
        10 => "Oct",
        11 => "Nov",
        12 => "Dec",
        _ => "???",
    }
}

/// The date of a Unix timestamp: day numbers counted from 1970-01-01 (day number 2440588).
pub open spec fn spec_format_unix_timestamp(secs: nat) -> Seq<char> {
    let f = spec_from_jdn_fields(2_440_588 + (secs / 86400) as int);
    spec_format_ymd(f.0 as i32 as int, f.1 as u32 as nat, f.2 as u32 as nat)
}

/// Format a Unix timestamp (seconds since epoch) as "YYYY-MM-DD".
pub fn format_unix_timestamp(secs: u64) -> (r: String)
    ensures
        r@ == spec_format_unix_timestamp(secs as nat),
{
    let days_since_epoch = (secs / 86400) as i64;
    // 1970-01-01 is JDN 2440588
    let jdn = 2_440_588 + days_since_epoch;
    let (y, m, d) = from_jdn(jdn);
    format_ymd(y, m, d)
}

/// Seconds since the Unix epoch from the system clock (zero if the clock is before it).
/// Trusted: `SystemTime::now().duration_since(UNIX_EPOCH)`; nothing is stated of the value,
/// which depends on the moment of the call.
#[verifier::external_body]
pub(crate) fn current_unix_secs() -> u64 {
    std::time::SystemTime::now().duration_since(std::time::UNIX_EPOCH).unwrap_or_default().as_secs()
}

/// Current date as "YYYY-MM-DD" from system time.
pub fn today_ymd() -> (r: String)
    ensures
        exists|secs: nat| secs <= u64::MAX && r@ == spec_format_unix_timestamp(secs),
{
    let secs = current_unix_secs();
    format_unix_timestamp(secs)
}

} // verus!
