//! Commit histograms from the GitHub punch card.
use vstd::prelude::*;

use crate::github::api_types::PunchCardEntry;
use crate::model::{ActivitySummary, zeros};

verus! {

/// A punch card entry that names a real day (0..=6) and hour (0..=23).
pub open spec fn valid_entry(e: PunchCardEntry) -> bool {
    e.0 < 7 && e.1 < 24
}

/// Weekday of a punch card day (0 = Sunday), with Monday first.
pub open spec fn remap_weekday(gh_day: u32) -> int {
    ((gh_day + 6) % 7) as int
}

/// Commits of the valid entries at hour `h`.
pub open spec fn punch_hour(es: Seq<PunchCardEntry>, h: int) -> nat
    decreases es.len(),
{
    if es.len() == 0 {
        0
    } else {
        let e = es.last();
        punch_hour(es.drop_last(), h) + if valid_entry(e) && e.1 == h {
            e.2 as nat
        } else {
            0nat
        }
    }
}

/// Commits of the valid entries on weekday `w` (Monday first).
pub open spec fn punch_weekday(es: Seq<PunchCardEntry>, w: int) -> nat
    decreases es.len(),
{
    if es.len() == 0 {
        0
    } else {
        let e = es.last();
        punch_weekday(es.drop_last(), w) + if valid_entry(e) && remap_weekday(e.0) == w {
            e.2 as nat
        } else {
            0nat
        }
    }
}

/// Commits of the valid entries on weekday `w` at hour `h`.
pub open spec fn punch_cell(es: Seq<PunchCardEntry>, w: int, h: int) -> nat
    decreases es.len(),
{
    if es.len() == 0 {
        0
    } else {
        let e = es.last();
        punch_cell(es.drop_last(), w, h) + if valid_entry(e) && remap_weekday(e.0) == w && e.1 == h {
            e.2 as nat
        } else {
            0nat
        }
    }
}

/// Commits of all valid entries.
pub open spec fn punch_total(es: Seq<PunchCardEntry>) -> nat
    decreases es.len(),
{
    if es.len() == 0 {
        0
    } else {
        punch_total(es.drop_last()) + if valid_entry(es.last()) {
            es.last().2 as nat
        } else {
            0nat
        }
    }
}

proof fn lemma_punch_bounds(es: Seq<PunchCardEntry>, w: int, h: int)
    ensures
        punch_hour(es, h) <= punch_total(es),
        punch_weekday(es, w) <= punch_total(es),
        punch_cell(es, w, h) <= punch_total(es),
    decreases es.len(),
{
    if es.len() > 0 {
        lemma_punch_bounds(es.drop_last(), w, h);
    }
}

/// Position of weekday `w`, hour `h` in a flat weekday-major grid.
pub open spec fn punch_index(w: int, h: int) -> int {
    24 * w + h
}

/// Commits per hour, per weekday (Monday first) and per weekday and hour, from the punch
/// card; entries with a day or hour out of range are skipped.
pub fn build_activity_summary(entries: &Vec<PunchCardEntry>) -> (r: ActivitySummary)
    requires
        punch_total(entries@) <= u32::MAX,
    ensures
        r.wf(),
        forall|h: int| 0 <= h < 24 ==> r.by_hour[h] == punch_hour(entries@, h),
        forall|w: int| 0 <= w < 7 ==> r.by_weekday[w] == punch_weekday(entries@, w),
        forall|w: int, h: int|
            0 <= w < 7 && 0 <= h < 24 ==> #[trigger] r.heatmap[w][h] == punch_cell(entries@, w, h),
{
    let mut by_hour = zeros(24);
    let mut by_weekday = zeros(7);
    let mut cells = zeros(168);
    let mut i: usize = 0;
    while i < entries.len()
        invariant
            i <= entries.len(),
            punch_total(entries@) <= u32::MAX,
            by_hour.len() == 24,
            by_weekday.len() == 7,
            cells.len() == 168,
            forall|h: int| 0 <= h < 24 ==> by_hour[h] == punch_hour(entries@.take(i as int), h),
            forall|w: int| 0 <= w < 7 ==> by_weekday[w] == punch_weekday(entries@.take(i as int), w),
            forall|w: int, h: int|
                0 <= w < 7 && 0 <= h < 24 ==> cells[punch_index(w, h)] == punch_cell(entries@.take(i as int), w, h),
        decreases entries.len() - i,
    {
        let ghost prev = entries@.take(i as int);
        let ghost next = entries@.take(i + 1);
        assert(next.drop_last() =~= prev);
        let e = entries[i];
        assert(next.last() == e);
        proof {
            lemma_total_prefix(entries@, i + 1);
        }
        let gh_day = e.0;
        let hour = e.1;
        let commits = e.2;
        if hour < 24 && gh_day < 7 {
            let weekday = ((gh_day + 6) % 7) as usize;
            let h = hour as usize;
            proof {
                lemma_punch_bounds(next, weekday as int, h as int);
            }
            let bh = by_hour[h] + commits;
            by_hour.set(h, bh);
            let bw = by_weekday[weekday] + commits;
            by_weekday.set(weekday, bw);
            let k = 24 * weekday + h;
            assert(punch_index(weekday as int, h as int) == k);
            assert(cells[k as int] == punch_cell(prev, weekday as int, h as int));
            let bc = cells[k] + commits;
            cells.set(k, bc);
            assert(cells[punch_index(weekday as int, h as int)] == punch_cell(next, weekday as int, h as int));
            proof {
                assert forall|w: int, hh: int| 0 <= w < 7 && 0 <= hh < 24 && (w != weekday || hh != h)
                    implies #[trigger] punch_index(w, hh) != k && cells[punch_index(w, hh)] == punch_cell(next, w, hh) by {
                    assert(24 * w + hh != 24 * weekday + h) by (nonlinear_arith)
                        requires
                            0 <= w < 7,
                            0 <= hh < 24,
                            0 <= weekday < 7,
                            0 <= h < 24,
                            w != weekday || hh != h,
                    ;
                    assert(cells[punch_index(w, hh)] == punch_cell(prev, w, hh));
                }
            }
        } else {
            assert forall|w: int, hh: int| 0 <= w < 7 && 0 <= hh < 24 implies cells[punch_index(w, hh)]
                == punch_cell(next, w, hh) by {
                assert(cells[punch_index(w, hh)] == punch_cell(prev, w, hh));
            }
        }
        i = i + 1;
    }
    assert(entries@.take(entries.len() as int) =~= entries@);
    let mut heatmap: Vec<Vec<u32>> = Vec::new();
    let mut w: usize = 0;
    while w < 7
        invariant
            w <= 7,
            cells.len() == 168,
            heatmap.len() == w,
            forall|a: int| 0 <= a < w ==> (#[trigger] heatmap[a]).len() == 24,
            forall|a: int, h: int| 0 <= a < w && 0 <= h < 24 ==> #[trigger] heatmap[a][h] == cells[punch_index(a, h)],
        decreases 7 - w,
    {
        let mut row: Vec<u32> = Vec::new();
        let mut h: usize = 0;
        while h < 24
            invariant
                w < 7,
                h <= 24,
                cells.len() == 168,
                row.len() == h,
                forall|b: int| 0 <= b < h ==> row[b] == cells[punch_index(w as int, b)],
            decreases 24 - h,
        {
            row.push(cells[24 * w + h]);
            h = h + 1;
        }
        heatmap.push(row);
        w = w + 1;
    }
    ActivitySummary { by_hour, by_weekday, heatmap }
}

proof fn lemma_total_prefix(es: Seq<PunchCardEntry>, k: int)
    requires
        0 <= k <= es.len(),
    ensures
        punch_total(es.take(k)) <= punch_total(es),
    decreases es.len() - k,
{
    if k < es.len() {
        lemma_total_prefix(es, k + 1);
        assert(es.take(k + 1).drop_last() =~= es.take(k));
    } else {
        assert(es.take(k) =~= es);
    }
}

} // verus!
