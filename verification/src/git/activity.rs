//! Commit histograms by hour and weekday, read from commit timestamps.
use vstd::prelude::*;

use crate::date_util::{
    is_real_date, lemma_day_of_week_is_jdn_mod_7, lemma_next_day_number, next_day, sakamoto_sum, spec_to_jdn,
};
use crate::arith::trem;
use crate::git::parse::{CommitView, ParsedCommit, commit_views};
use crate::model::{ActivitySummary, zeros};
use crate::text::{
    find_char, find_char_in, lemma_find_char_props, parse_i32_in, parse_i32_spec, parse_u32_in,
    parse_u32_spec, parse_usize_in, parse_usize_spec, split_ranges, split_seq, str_chars,
};

verus! {

broadcast use vstd::string::group_string_axioms;

/// Day of week (0 = Monday .. 6 = Sunday) of a date whose month is in 1..=12 and day in
/// 1..=31 (Sakamoto's method; other days of a month are not rejected).
pub open spec fn spec_weekday(year: int, month: int, day: int) -> Option<usize> {
    if 1 <= month <= 12 && 1 <= day <= 31 {
        Some(((trem(sakamoto_sum(year, month, day as u32), 7) + 6) % 7) as usize)
    } else {
        None
    }
}

/// The weekday of a real date (in year 1 or later) is the calendar's: its day number modulo
/// 7, with 0 for Monday; so the weekday of the next day is one further on, modulo 7.
pub proof fn lemma_weekday_is_calendar_weekday(y: int, m: int, d: int)
    requires
        1 <= y,
        is_real_date(y, m, d),
    ensures
        spec_weekday(y, m, d) == Some((spec_to_jdn(y, m, d) % 7) as usize),
        spec_weekday(next_day(y, m, d).0, next_day(y, m, d).1, next_day(y, m, d).2) == Some(
            ((spec_to_jdn(y, m, d) + 1) % 7) as usize,
        ),
{
    lemma_day_of_week_is_jdn_mod_7(y, m, d as u32);
    let (y1, m1, d1) = next_day(y, m, d);
    assert(1 <= y1 && 1 <= m1 <= 12 && 1 <= d1 <= 31);
    lemma_day_of_week_is_jdn_mod_7(y1, m1, d1 as u32);
    lemma_next_day_number(y, m, d);
}

/// Month offsets of Sakamoto's method.
fn month_offset(month: u32) -> (r: i64)
    requires
        1 <= month <= 12,
    ensures
        r == crate::date_util::sakamoto_offset(month as int),
{
    match month {
        1 => 0,
        2 => 3,
        3 => 2,
        4 => 5,
        5 => 0,
        6 => 3,
        7 => 5,
        8 => 1,
        9 => 4,
        10 => 6,
        11 => 2,
        _ => 4,
    }
}

/// Day of week (0 = Monday .. 6 = Sunday); `None` for a month outside 1..=12 or a day
/// outside 1..=31.
pub fn day_of_week(year: i32, month: u32, day: u32) -> (r: Option<usize>)
    ensures
        r == spec_weekday(year as int, month as int, day as int),
        r matches Some(w) ==> w < 7,
        1 <= year && is_real_date(year as int, month as int, day as int) ==> r == Some(
            (spec_to_jdn(year as int, month as int, day as int) % 7) as usize,
        ),
{
    proof {
        if 1 <= year && is_real_date(year as int, month as int, day as int) {
            lemma_weekday_is_calendar_weekday(year as int, month as int, day as int);
        }
    }
    if !(1 <= month && month <= 12) || !(1 <= day && day <= 31) {
        return None;
    }
    let t = month_offset(month);
    let y: i64 = if month < 3 { year as i64 - 1 } else { year as i64 };
    let sum = y + y / 4 - y / 100 + y / 400 + t + day as i64;
    let dow = sum % 7;
    Some(((dow + 6) % 7) as usize)
}

/// The hour of a timestamp: its first two characters after the `T`, parsed as a number
/// below 24.
pub open spec fn hour_of(time: Seq<char>) -> Option<usize> {
    if time.len() >= 2 {
        match parse_usize_spec(time.take(2)) {
            Some(h) => if h < 24 {
                Some(h)
            } else {
                None
            },
            None => None,
        }
    } else {
        None
    }
}

/// `(hour, weekday)` of an ISO 8601 timestamp such as `2025-01-15T10:00:00+00:00`:
/// the hour after the first `T`, the weekday of the `year-month-day` before it.
pub open spec fn spec_hour_and_weekday(ts: Seq<char>) -> Option<(usize, usize)> {
    match find_char(ts, 'T') {
        None => None,
        Some(t) => {
            let date = ts.take(t);
            let time = ts.skip(t + 1);
            match hour_of(time) {
                None => None,
                Some(h) => {
                    let parts = split_seq(date, '-');
                    if parts.len() != 3 {
                        None
                    } else {
                        match (
                            parse_i32_spec(parts[0]),
                            parse_u32_spec(parts[1]),
                            parse_u32_spec(parts[2]),
                        ) {
                            (Some(y), Some(m), Some(d)) => match spec_weekday(y as int, m as int, d as int) {
                                Some(w) => Some((h, w)),
                                None => None,
                            },
                            _ => None,
                        }
                    }
                },
            }
        },
    }
}

/// Hour (0..=23) and weekday (0 = Monday) of an ISO 8601 timestamp, `None` when it does not
/// have that shape.
pub fn parse_hour_and_weekday(timestamp: &str) -> (r: Option<(usize, usize)>)
    ensures
        r == spec_hour_and_weekday(timestamp@),
        r matches Some(p) ==> p.0 < 24 && p.1 < 7,
{
    let s = str_chars(timestamp);
    let n = s.len();
    assert(s@.subrange(0, n as int) =~= s@);
    let t = match find_char_in(&s, 0, n, 'T') {
        Some(t) => t,
        None => return None,
    };
    proof {
        lemma_find_char_props(s@, 'T');
    }
    let ghost time = s@.skip(t + 1);
    if n - (t + 1) < 2 {
        return None;
    }
    assert(time.take(2) =~= s@.subrange(t + 1, t + 3));
    let hour = match parse_usize_in(&s, t + 1, t + 3) {
        Some(h) => h,
        None => return None,
    };
    if hour >= 24 {
        return None;
    }
    assert(s@.take(t as int) =~= s@.subrange(0, t as int));
    let parts = split_ranges(&s, 0, t, '-');
    if parts.len() != 3 {
        return None;
    }
    let ghost ps = split_seq(s@.take(t as int), '-');
    assert(ps[0] == s@.subrange(parts@[0].0 as int, parts@[0].1 as int));
    assert(ps[1] == s@.subrange(parts@[1].0 as int, parts@[1].1 as int));
    assert(ps[2] == s@.subrange(parts@[2].0 as int, parts@[2].1 as int));
    assert(0 <= parts@[0].0 <= parts@[0].1 <= t);
    assert(0 <= parts@[1].0 <= parts@[1].1 <= t);
    assert(0 <= parts@[2].0 <= parts@[2].1 <= t);
    let y = match parse_i32_in(&s, parts[0].0, parts[0].1) {
        Some(v) => v,
        None => return None,
    };
    let m = match parse_u32_in(&s, parts[1].0, parts[1].1) {
        Some(v) => v,
        None => return None,
    };
    let d = match parse_u32_in(&s, parts[2].0, parts[2].1) {
        Some(v) => v,
        None => return None,
    };
    match day_of_week(y, m, d) {
        Some(w) => Some((hour, w)),
        None => None,
    }
}

/// `(hour, weekday)` of a commit's timestamp.
pub open spec fn commit_hw(c: CommitView) -> Option<(usize, usize)> {
    spec_hour_and_weekday(c.timestamp)
}

/// Number of commits with a readable timestamp whose hour is `h`.
pub open spec fn count_hour(cs: Seq<CommitView>, h: int) -> nat
    decreases cs.len(),
{
    if cs.len() == 0 {
        0
    } else {
        count_hour(cs.drop_last(), h) + match commit_hw(cs.last()) {
            Some(p) => if p.0 as int == h {
                1nat
            } else {
                0nat
            },
            None => 0nat,
        }
    }
}

/// Number of commits with a readable timestamp whose weekday is `w`.
pub open spec fn count_weekday(cs: Seq<CommitView>, w: int) -> nat
    decreases cs.len(),
{
    if cs.len() == 0 {
        0
    } else {
        count_weekday(cs.drop_last(), w) + match commit_hw(cs.last()) {
            Some(p) => if p.1 as int == w {
                1nat
            } else {
                0nat
            },
            None => 0nat,
        }
    }
}

/// Number of commits with a readable timestamp on weekday `w` at hour `h`.
pub open spec fn count_cell(cs: Seq<CommitView>, w: int, h: int) -> nat
    decreases cs.len(),
{
    if cs.len() == 0 {
        0
    } else {
        count_cell(cs.drop_last(), w, h) + match commit_hw(cs.last()) {
            Some(p) => if p.1 as int == w && p.0 as int == h {
                1nat
            } else {
                0nat
            },
            None => 0nat,
        }
    }
}

/// Number of commits with a readable timestamp.
pub open spec fn count_readable(cs: Seq<CommitView>) -> nat
    decreases cs.len(),
{
    if cs.len() == 0 {
        0
    } else {
        count_readable(cs.drop_last()) + if commit_hw(cs.last()) is Some {
            1nat
        } else {
            0nat
        }
    }
}

pub proof fn lemma_counts_bounded(cs: Seq<CommitView>, w: int, h: int)
    ensures
        count_hour(cs, h) <= cs.len(),
        count_weekday(cs, w) <= cs.len(),
        count_cell(cs, w, h) <= cs.len(),
    decreases cs.len(),
{
    if cs.len() > 0 {
        lemma_counts_bounded(cs.drop_last(), w, h);
    }
}

/// Position of weekday `w`, hour `h` in a flat weekday-major grid.
pub open spec fn cell_index(w: int, h: int) -> int {
    24 * w + h
}

/// How the counts change when one more commit is looked at.
pub proof fn lemma_count_step(prev: Seq<CommitView>, c: CommitView)
    ensures
        forall|h: int| #[trigger] count_hour(prev.push(c), h) == count_hour(prev, h) + match commit_hw(c) {
            Some(p) => if p.0 as int == h { 1nat } else { 0nat },
            None => 0nat,
        },
        forall|w: int| #[trigger] count_weekday(prev.push(c), w) == count_weekday(prev, w) + match commit_hw(c) {
            Some(p) => if p.1 as int == w { 1nat } else { 0nat },
            None => 0nat,
        },
        forall|w: int, h: int| #[trigger] count_cell(prev.push(c), w, h) == count_cell(prev, w, h) + match commit_hw(c) {
            Some(p) => if p.1 as int == w && p.0 as int == h { 1nat } else { 0nat },
            None => 0nat,
        },
        count_readable(prev.push(c)) == count_readable(prev) + if commit_hw(c) is Some { 1nat } else { 0nat },
{
    assert(prev.push(c).drop_last() =~= prev);
}

/// Adds one to `v[k]`.
pub fn bump(v: &mut Vec<u32>, k: usize)
    requires
        k < old(v).len(),
        old(v)[k as int] < u32::MAX,
    ensures
        final(v)@ == old(v)@.update(k as int, (old(v)[k as int] + 1) as u32),
{
    let x = v[k] + 1;
    v.set(k, x);
}

/// Commits per hour, per weekday and per weekday and hour, counted over the commits whose
/// timestamp is readable.
pub fn build_activity_summary(commits: &Vec<ParsedCommit>) -> (r: ActivitySummary)
    requires
        commits.len() <= u32::MAX,
    ensures
        r.wf(),
        forall|h: int| 0 <= h < 24 ==> r.by_hour[h] == count_hour(commit_views(commits@), h),
        forall|w: int| 0 <= w < 7 ==> r.by_weekday[w] == count_weekday(commit_views(commits@), w),
        forall|w: int, h: int|
            0 <= w < 7 && 0 <= h < 24 ==> #[trigger] r.heatmap[w][h] == count_cell(
                commit_views(commits@),
                w,
                h,
            ),
{
    let ghost cs = commit_views(commits@);
    let mut by_hour = zeros(24);
    let mut by_weekday = zeros(7);
    let mut cells = zeros(168);
    let mut i: usize = 0;
    while i < commits.len()
        invariant
            i <= commits.len() <= u32::MAX,
            cs == commit_views(commits@),
            by_hour.len() == 24,
            by_weekday.len() == 7,
            cells.len() == 168,
            forall|h: int| 0 <= h < 24 ==> by_hour[h] == count_hour(cs.take(i as int), h),
            forall|w: int| 0 <= w < 7 ==> by_weekday[w] == count_weekday(cs.take(i as int), w),
            forall|w: int, h: int|
                0 <= w < 7 && 0 <= h < 24 ==> cells[cell_index(w, h)] == count_cell(cs.take(i as int), w, h),
        decreases commits.len() - i,
    {
        let ghost prev = cs.take(i as int);
        assert(cs.take(i + 1) =~= prev.push(commits@[i as int]@));
        proof {
            lemma_count_step(prev, commits@[i as int]@);
        }
        match parse_hour_and_weekday(commits[i].timestamp.as_str()) {
            Some((hour, weekday)) => {
                proof {
                    lemma_counts_bounded(prev, weekday as int, hour as int);
                }
                bump(&mut by_hour, hour);
                bump(&mut by_weekday, weekday);
                let k = 24 * weekday + hour;
                bump(&mut cells, k);
                proof {
                    assert forall|w: int, h: int| 0 <= w < 7 && 0 <= h < 24 && (w != weekday || h != hour)
                        implies #[trigger] cell_index(w, h) != k by {
                        assert(24 * w + h != 24 * weekday + hour) by (nonlinear_arith)
                            requires
                                0 <= w < 7,
                                0 <= h < 24,
                                0 <= weekday < 7,
                                0 <= hour < 24,
                                w != weekday || h != hour,
                        ;
                    }
                }
            },
            None => {},
        }
        i = i + 1;
    }
    assert(cs.take(commits.len() as int) =~= cs);
    let mut heatmap: Vec<Vec<u32>> = Vec::new();
    let mut w: usize = 0;
    while w < 7
        invariant
            w <= 7,
            cells.len() == 168,
            heatmap.len() == w,
            forall|a: int| 0 <= a < w ==> (#[trigger] heatmap[a]).len() == 24,
            forall|a: int, h: int| 0 <= a < w && 0 <= h < 24 ==> #[trigger] heatmap[a][h] == cells[cell_index(a, h)],
        decreases 7 - w,
    {
        let mut row: Vec<u32> = Vec::new();
        let mut h: usize = 0;
        while h < 24
            invariant
                w < 7,
                h <= 24,
                cells.len() == 168,
                row.len() == h,
                forall|b: int| 0 <= b < h ==> row[b] == cells[cell_index(w as int, b)],
            decreases 24 - h,
        {
            row.push(cells[24 * w + h]);
            h = h + 1;
        }
        heatmap.push(row);
        w = w + 1;
    }
    ActivitySummary { by_hour, by_weekday, heatmap }
}

/// Sum of the hour counts over hours `0..k`.
pub open spec fn sum_hours(cs: Seq<CommitView>, k: nat) -> nat
    decreases k,
{
    if k == 0 {
        0
    } else {
        sum_hours(cs, (k - 1) as nat) + count_hour(cs, k - 1)
    }
}

/// Sum of the weekday counts over weekdays `0..k`.
pub open spec fn sum_weekdays(cs: Seq<CommitView>, k: nat) -> nat
    decreases k,
{
    if k == 0 {
        0
    } else {
        sum_weekdays(cs, (k - 1) as nat) + count_weekday(cs, k - 1)
    }
}

/// Sum of the counts of weekday `w` over hours `0..k`.
pub open spec fn sum_cells(cs: Seq<CommitView>, w: int, k: nat) -> nat
    decreases k,
{
    if k == 0 {
        0
    } else {
        sum_cells(cs, w, (k - 1) as nat) + count_cell(cs, w, k - 1)
    }
}

proof fn lemma_hw_bounds(c: CommitView)
    ensures
        commit_hw(c) matches Some(p) ==> p.0 < 24 && p.1 < 7,
{
}

proof fn lemma_sums_step(prev: Seq<CommitView>, c: CommitView, k: nat, w: int)
    ensures
        sum_hours(prev.push(c), k) == sum_hours(prev, k) + match commit_hw(c) {
            Some(p) => if (p.0 as int) < k { 1nat } else { 0nat },
            None => 0nat,
        },
        sum_weekdays(prev.push(c), k) == sum_weekdays(prev, k) + match commit_hw(c) {
            Some(p) => if (p.1 as int) < k { 1nat } else { 0nat },
            None => 0nat,
        },
        sum_cells(prev.push(c), w, k) == sum_cells(prev, w, k) + match commit_hw(c) {
            Some(p) => if p.1 as int == w && (p.0 as int) < k { 1nat } else { 0nat },
            None => 0nat,
        },
    decreases k,
{
    lemma_count_step(prev, c);
    if k > 0 {
        lemma_sums_step(prev, c, (k - 1) as nat, w);
    }
}

proof fn lemma_sums_empty(cs: Seq<CommitView>, k: nat, w: int)
    requires
        cs.len() == 0,
    ensures
        sum_hours(cs, k) == 0,
        sum_weekdays(cs, k) == 0,
        sum_cells(cs, w, k) == 0,
    decreases k,
{
    if k > 0 {
        lemma_sums_empty(cs, (k - 1) as nat, w);
    }
}

/// Every commit with a readable timestamp is counted once in the hour histogram, once in the
/// weekday histogram, and once in its weekday's row of the heatmap: the hour counts and the
/// weekday counts both add up to the number of such commits, and each heatmap row adds up to
/// its weekday's count.
pub proof fn lemma_activity_totals(cs: Seq<CommitView>)
    ensures
        sum_hours(cs, 24) == count_readable(cs),
        sum_weekdays(cs, 7) == count_readable(cs),
        forall|w: int| 0 <= w < 7 ==> #[trigger] sum_cells(cs, w, 24) == count_weekday(cs, w),
    decreases cs.len(),
{
    if cs.len() > 0 {
        let prev = cs.drop_last();
        let c = cs.last();
        lemma_activity_totals(prev);
        assert(cs =~= prev.push(c));
        lemma_hw_bounds(c);
        lemma_count_step(prev, c);
        lemma_sums_step(prev, c, 24, 0);
        lemma_sums_step(prev, c, 7, 0);
        assert forall|w: int| 0 <= w < 7 implies #[trigger] sum_cells(cs, w, 24) == count_weekday(cs, w) by {
            lemma_sums_step(prev, c, 24, w);
        }
    } else {
        lemma_sums_empty(cs, 24, 0);
        lemma_sums_empty(cs, 7, 0);
        assert forall|w: int| 0 <= w < 7 implies #[trigger] sum_cells(cs, w, 24) == count_weekday(cs, w) by {
            lemma_sums_empty(cs, 24, w);
        }
    }
}

} // verus!
