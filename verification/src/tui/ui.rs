//! Data preparation for the interface's charts and progress lines.
use vstd::prelude::*;

use crate::text::{push_str, str_chars, string_from_chars};
use crate::tui::app::BranchProgress;

verus! {

broadcast use vstd::string::group_string_axioms;

/// Daily points grouped into runs of seven: each group starts at a point and adds up the
/// counts of the next six (saturating at `u32::MAX`).
pub open spec fn weekly_groups(points: Seq<(String, u32)>) -> Seq<(Seq<char>, u32)>
    decreases points.len(),
{
    if points.len() == 0 {
        Seq::empty()
    } else {
        let prev = weekly_groups(points.drop_last());
        let p = points.last();
        if (points.len() - 1) % 7 == 0 {
            prev.push((p.0@, p.1))
        } else {
            let last = prev.last();
            let sum = last.1 + p.1;
            prev.update(prev.len() - 1, (last.0, if sum > u32::MAX { u32::MAX } else { sum as u32 }))
        }
    }
}

pub(crate) proof fn lemma_weekly_len(points: Seq<(String, u32)>)
    ensures
        weekly_groups(points).len() == (points.len() + 6) / 7,
    decreases points.len(),
{
    if points.len() > 0 {
        lemma_weekly_len(points.drop_last());
    }
}

/// Group daily points into weeks of seven consecutive points, each labelled with its first
/// date.
pub fn aggregate_weekly(points: &Vec<(String, u32)>) -> (r: Vec<(String, u32)>)
    ensures
        r.len() == weekly_groups(points@).len(),
        forall|i: int| 0 <= i < r.len() ==> (#[trigger] r@[i]).0@ == weekly_groups(points@)[i].0 && r@[i].1
            == weekly_groups(points@)[i].1,
{
    let mut weeks: Vec<(String, u32)> = Vec::new();
    let mut day_count: u32 = 0;
    let mut i: usize = 0;
    while i < points.len()
        invariant
            i <= points.len(),
            weeks.len() == weekly_groups(points@.take(i as int)).len(),
            forall|j: int| 0 <= j < weeks.len() ==> (#[trigger] weeks@[j]).0@ == weekly_groups(points@.take(i as int))[j].0
                && weeks@[j].1 == weekly_groups(points@.take(i as int))[j].1,
            i == 0 ==> day_count == 0,
            i > 0 ==> day_count as int == (i - 1) % 7 + 1,
            weeks.len() == (i + 6) / 7,
        decreases points.len() - i,
    {
        assert(points@.take(i + 1).drop_last() =~= points@.take(i as int));
        assert(points@.take(i + 1).last() == points@[i as int]);
        proof {
            lemma_weekly_len(points@.take(i as int));
        }
        if day_count >= 7 || weeks.len() == 0 {
            weeks.push((points[i].0.clone(), points[i].1));
            day_count = 1;
        } else {
            let n = weeks.len();
            let sum: u64 = weeks[n - 1].1 as u64 + points[i].1 as u64;
            let s: u32 = if sum > u32::MAX as u64 { u32::MAX } else { sum as u32 };
            let label = weeks[n - 1].0.clone();
            weeks.set(n - 1, (label, s));
            day_count = day_count + 1;
        }
        i = i + 1;
    }
    assert(points@.take(points.len() as int) =~= points@);
    weeks
}

/// What happened to a branch: local and remote deletion outcomes, or "no action".
pub open spec fn spec_delete_detail(local_ok: Option<bool>, remote_ok: Option<bool>) -> Seq<char> {
    let l: Seq<char> = match local_ok {
        Some(true) => "local"@,
        Some(false) => "local failed"@,
        None => Seq::empty(),
    };
    let r: Seq<char> = match remote_ok {
        Some(true) => "remote"@,
        Some(false) => "remote failed"@,
        None => Seq::empty(),
    };
    if local_ok is None && remote_ok is None {
        "no action"@
    } else if local_ok is Some && remote_ok is Some {
        l + ", "@ + r
    } else {
        l + r
    }
}

/// The outcome of one branch deletion as a short phrase.
pub fn format_delete_detail(p: &BranchProgress) -> (r: String)
    ensures
        r@ == spec_delete_detail(p.local_ok, p.remote_ok),
{
    let mut v: Vec<char> = Vec::new();
    match p.local_ok {
        Some(true) => push_str(&mut v, "local"),
        Some(false) => push_str(&mut v, "local failed"),
        None => {},
    }
    match p.remote_ok {
        Some(ok) => {
            if p.local_ok.is_some() {
                push_str(&mut v, ", ");
            }
            if ok {
                push_str(&mut v, "remote");
            } else {
                push_str(&mut v, "remote failed");
            }
        },
        None => {},
    }
    if p.local_ok.is_none() && p.remote_ok.is_none() {
        push_str(&mut v, "no action");
    }
    assert(v@ =~= spec_delete_detail(p.local_ok, p.remote_ok));
    string_from_chars(&v)
}

} // verus!
