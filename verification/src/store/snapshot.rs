//! The rows that a stored analysis snapshot holds: its period, one summary per contributor
//! and the non-zero weekday and hour counts of each contributor.
use vstd::prelude::*;

use crate::model::{ContributorActivityStats, ContributorStats, RepositoryAnalysis};
use crate::store::sqlite::max_index;
use crate::text::{lowercase, seq_lt, str_eq, str_lt, to_lowercase};

verus! {

broadcast use vstd::string::group_string_axioms;

/// The summary row of one contributor.
#[derive(Debug, Clone)]
pub struct SummaryRow {
    pub email: String,
    pub name: String,
    pub commits: u64,
    pub lines_added: u64,
    pub lines_deleted: u64,
    /// Lines added plus lines deleted.
    pub lines_changed: u64,
    pub files_touched: u64,
    pub active_days: u64,
    pub first_commit: String,
    pub last_commit: String,
    /// Weekday (0 = Monday) with the most commits, when the contributor's activity is known.
    pub most_active_weekday: Option<usize>,
    /// Hour with the most commits, when the contributor's activity is known.
    pub most_active_hour: Option<usize>,
}

/// A non-zero count of one contributor in one weekday or hour.
#[derive(Debug, Clone, Copy, PartialEq, Eq, Structural)]
pub struct StatRow {
    /// Index of the contributor among the analysis's contributors.
    pub contributor: usize,
    /// Weekday (0 = Monday) or hour.
    pub slot: usize,
    pub commits: u32,
    /// Distinct days (or date-hour buckets) with commits in that slot.
    pub distinct: usize,
}

/// Everything a snapshot stores besides the serialized analysis.
#[derive(Debug, Clone)]
pub struct SnapshotRows {
    /// The earliest non-empty first-commit time of the contributors.
    pub period_start: Option<String>,
    /// The latest non-empty last-commit time of the contributors.
    pub period_end: Option<String>,
    pub total_commits: u64,
    pub contributor_count: usize,
    pub summaries: Vec<SummaryRow>,
    pub weekday_stats: Vec<StatRow>,
    pub hour_stats: Vec<StatRow>,
}

/// The least of the non-empty texts, by `str` order.
pub open spec fn earliest(v: Seq<Seq<char>>) -> Option<Seq<char>>
    decreases v.len(),
{
    if v.len() == 0 {
        None
    } else {
        let p = earliest(v.drop_last());
        let x = v.last();
        if x.len() == 0 {
            p
        } else {
            match p {
                None => Some(x),
                Some(m) => if seq_lt(x, m) { Some(x) } else { Some(m) },
            }
        }
    }
}

/// The greatest of the non-empty texts, by `str` order.
pub open spec fn latest(v: Seq<Seq<char>>) -> Option<Seq<char>>
    decreases v.len(),
{
    if v.len() == 0 {
        None
    } else {
        let p = latest(v.drop_last());
        let x = v.last();
        if x.len() == 0 {
            p
        } else {
            match p {
                None => Some(x),
                Some(m) => if seq_lt(m, x) { Some(x) } else { Some(m) },
            }
        }
    }
}

pub open spec fn first_commits(cs: Seq<ContributorStats>) -> Seq<Seq<char>> {
    cs.map_values(|c: ContributorStats| c.first_commit@)
}

pub open spec fn last_commits(cs: Seq<ContributorStats>) -> Seq<Seq<char>> {
    cs.map_values(|c: ContributorStats| c.last_commit@)
}

/// The activity of the contributor with `email`: the last one whose email matches it
/// ignoring case.
pub open spec fn activity_for(acts: Seq<ContributorActivityStats>, email: Seq<char>) -> Option<int>
    decreases acts.len(),
{
    if acts.len() == 0 {
        None
    } else if lowercase(acts.last().email@) == lowercase(email) {
        Some(acts.len() - 1)
    } else {
        activity_for(acts.drop_last(), email)
    }
}

/// `k` is the index of the largest value, the last of several equal ones (0 when there are
/// no values).
pub open spec fn is_last_max(values: Seq<u32>, k: int) -> bool {
    if values.len() == 0 {
        k == 0
    } else {
        &&& 0 <= k < values.len()
        &&& forall|j: int| 0 <= j < values.len() ==> values[j] <= values[k]
        &&& forall|j: int| k < j < values.len() ==> values[j] < values[k]
    }
}

/// The rows of the non-zero counts among the first `n` slots of contributor `c`.
pub open spec fn nonzero_rows(c: int, counts: Seq<u32>, sets: Seq<Vec<String>>, n: int) -> Seq<StatRow>
    decreases n,
{
    if n <= 0 {
        Seq::empty()
    } else {
        let prev = nonzero_rows(c, counts, sets, n - 1);
        if counts[n - 1] != 0 {
            prev.push(
                StatRow {
                    contributor: c as usize,
                    slot: (n - 1) as usize,
                    commits: counts[n - 1],
                    distinct: sets[n - 1]@.len() as usize,
                },
            )
        } else {
            prev
        }
    }
}

/// The weekday rows of the first `k` contributors.
pub open spec fn weekday_rows(cs: Seq<ContributorStats>, acts: Seq<ContributorActivityStats>, k: int) -> Seq<StatRow>
    decreases k,
{
    if k <= 0 {
        Seq::empty()
    } else {
        weekday_rows(cs, acts, k - 1) + match activity_for(acts, cs[k - 1].email@) {
            Some(j) => nonzero_rows(
                k - 1,
                acts[j].weekday_commits@,
                acts[j].active_dates_by_weekday@,
                acts[j].weekday_commits@.len() as int,
            ),
            None => Seq::empty(),
        }
    }
}

/// The hour rows of the first `k` contributors.
pub open spec fn hour_rows(cs: Seq<ContributorStats>, acts: Seq<ContributorActivityStats>, k: int) -> Seq<StatRow>
    decreases k,
{
    if k <= 0 {
        Seq::empty()
    } else {
        hour_rows(cs, acts, k - 1) + match activity_for(acts, cs[k - 1].email@) {
            Some(j) => nonzero_rows(
                k - 1,
                acts[j].hour_commits@,
                acts[j].active_hour_buckets_by_hour@,
                acts[j].hour_commits@.len() as int,
            ),
            None => Seq::empty(),
        }
    }
}

/// The inputs whose rows can be built: each activity has a set of days for every weekday
/// and hour it counts, and each contributor's added and deleted lines add up within `u64`.
pub open spec fn snapshot_fits(a: RepositoryAnalysis) -> bool {
    &&& forall|j: int| 0 <= j < a.contributions.activity_by_contributor@.len() ==> {
        let act = #[trigger] a.contributions.activity_by_contributor@[j];
        &&& act.weekday_commits@.len() <= act.active_dates_by_weekday@.len()
        &&& act.hour_commits@.len() <= act.active_hour_buckets_by_hour@.len()
    }
    &&& forall|i: int| 0 <= i < a.contributions.contributors@.len() ==> {
        let c = #[trigger] a.contributions.contributors@[i];
        c.lines_added + c.lines_deleted <= u64::MAX
    }
}

/// Summary row `i` is that of contributor `c`, with the most active weekday and hour of
/// its activity `act` (when there is one).
pub open spec fn is_summary_of(r: SummaryRow, c: ContributorStats, act: Option<ContributorActivityStats>) -> bool {
    &&& r.email@ == c.email@
    &&& r.name@ == c.name@
    &&& r.commits == c.commits
    &&& r.lines_added == c.lines_added
    &&& r.lines_deleted == c.lines_deleted
    &&& r.lines_changed == c.lines_added + c.lines_deleted
    &&& r.files_touched == c.files_touched
    &&& r.active_days == c.active_days
    &&& r.first_commit@ == c.first_commit@
    &&& r.last_commit@ == c.last_commit@
    &&& match act {
        Some(a) => {
            &&& r.most_active_weekday matches Some(w) && is_last_max(a.weekday_commits@, w as int)
            &&& r.most_active_hour matches Some(h) && is_last_max(a.hour_commits@, h as int)
        },
        None => r.most_active_weekday is None && r.most_active_hour is None,
    }
}

pub open spec fn activity_of(a: RepositoryAnalysis, i: int) -> Option<ContributorActivityStats> {
    let acts = a.contributions.activity_by_contributor@;
    match activity_for(acts, a.contributions.contributors@[i].email@) {
        Some(j) => Some(acts[j]),
        None => None,
    }
}

proof fn lemma_activity_for_range(acts: Seq<ContributorActivityStats>, email: Seq<char>)
    ensures
        activity_for(acts, email) matches Some(j) ==> 0 <= j < acts.len(),
    decreases acts.len(),
{
    if acts.len() > 0 {
        lemma_activity_for_range(acts.drop_last(), email);
    }
}

/// Index of the activity that belongs to `email` (compared lowercased).
fn find_activity(acts: &Vec<ContributorActivityStats>, email: &String) -> (r: Option<usize>)
    ensures
        r matches Some(j) ==> activity_for(acts@, email@) == Some(j as int),
        r is None ==> activity_for(acts@, email@) is None,
{
    let lower = to_lowercase(email.as_str());
    let mut i: usize = acts.len();
    assert(acts@.take(i as int) =~= acts@);
    while i > 0
        invariant
            i <= acts.len(),
            lower@ == lowercase(email@),
            activity_for(acts@, email@) == activity_for(acts@.take(i as int), email@),
        decreases i,
    {
        let k = i - 1;
        assert(acts@.take(i as int).drop_last() =~= acts@.take(k as int));
        assert(acts@.take(i as int).last() == acts@[k as int]);
        let other = to_lowercase(acts[k].email.as_str());
        if str_eq(other.as_str(), lower.as_str()) {
            return Some(k);
        }
        i = k;
    }
    None
}

fn push_nonzero(
    rows: &mut Vec<StatRow>,
    c: usize,
    counts: &Vec<u32>,
    sets: &Vec<Vec<String>>,
)
    requires
        counts.len() <= sets.len(),
    ensures
        final(rows)@ == old(rows)@ + nonzero_rows(c as int, counts@, sets@, counts.len() as int),
{
    let mut n: usize = 0;
    while n < counts.len()
        invariant
            n <= counts.len() <= sets.len(),
            rows@ == old(rows)@ + nonzero_rows(c as int, counts@, sets@, n as int),
        decreases counts.len() - n,
    {
        if counts[n] != 0 {
            rows.push(StatRow { contributor: c, slot: n, commits: counts[n], distinct: sets[n].len() });
        }
        n = n + 1;
        assert(rows@ =~= old(rows)@ + nonzero_rows(c as int, counts@, sets@, n as int));
    }
}

/// The period of the snapshot: the earliest first commit and the latest last commit.
fn period_bounds(cs: &Vec<ContributorStats>) -> (r: (Option<String>, Option<String>))
    ensures
        opt_str(r.0) == earliest(first_commits(cs@)),
        opt_str(r.1) == latest(last_commits(cs@)),
{
    let mut lo: Option<String> = None;
    let mut hi: Option<String> = None;
    let mut i: usize = 0;
    while i < cs.len()
        invariant
            i <= cs.len(),
            opt_str(lo) == earliest(first_commits(cs@).take(i as int)),
            opt_str(hi) == latest(last_commits(cs@).take(i as int)),
        decreases cs.len() - i,
    {
        assert(first_commits(cs@).take(i + 1).drop_last() =~= first_commits(cs@).take(i as int));
        assert(last_commits(cs@).take(i + 1).drop_last() =~= last_commits(cs@).take(i as int));
        let f = &cs[i].first_commit;
        assert(first_commits(cs@).take(i + 1).last() == f@);
        assert(last_commits(cs@).take(i + 1).last() == cs@[i as int].last_commit@);
        if crate::text::str_chars(f.as_str()).len() > 0 {
            lo = match lo {
                None => Some(f.clone()),
                Some(m) => if str_lt(f.as_str(), m.as_str()) { Some(f.clone()) } else { Some(m) },
            };
        }
        let l = &cs[i].last_commit;
        if crate::text::str_chars(l.as_str()).len() > 0 {
            hi = match hi {
                None => Some(l.clone()),
                Some(m) => if str_lt(m.as_str(), l.as_str()) { Some(l.clone()) } else { Some(m) },
            };
        }
        i = i + 1;
    }
    assert(first_commits(cs@).take(cs.len() as int) =~= first_commits(cs@));
    assert(last_commits(cs@).take(cs.len() as int) =~= last_commits(cs@));
    (lo, hi)
}

pub open spec fn opt_str(s: Option<String>) -> Option<Seq<char>> {
    match s {
        Some(t) => Some(t@),
        None => None,
    }
}

/// The rows to store for an analysis: its period (earliest first commit, latest last
/// commit), commit and contributor totals, a summary row per contributor with the most
/// active weekday and hour of its activity (found by lowercased email), and the non-zero
/// weekday and hour counts of each contributor with their numbers of distinct days.
pub fn snapshot_rows(analysis: &RepositoryAnalysis) -> (r: SnapshotRows)
    requires
        snapshot_fits(*analysis),
    ensures
        opt_str(r.period_start) == earliest(first_commits(analysis.contributions.contributors@)),
        opt_str(r.period_end) == latest(last_commits(analysis.contributions.contributors@)),
        r.total_commits == analysis.contributions.total_commits,
        r.contributor_count == analysis.contributions.contributors.len(),
        r.summaries.len() == analysis.contributions.contributors.len(),
        forall|i: int| 0 <= i < r.summaries.len() ==> is_summary_of(
            #[trigger] r.summaries@[i],
            analysis.contributions.contributors@[i],
            activity_of(*analysis, i),
        ),
        r.weekday_stats@ == weekday_rows(
            analysis.contributions.contributors@,
            analysis.contributions.activity_by_contributor@,
            analysis.contributions.contributors@.len() as int,
        ),
        r.hour_stats@ == hour_rows(
            analysis.contributions.contributors@,
            analysis.contributions.activity_by_contributor@,
            analysis.contributions.contributors@.len() as int,
        ),
{
    let cs = &analysis.contributions.contributors;
    let acts = &analysis.contributions.activity_by_contributor;
    let (period_start, period_end) = period_bounds(cs);
    let mut summaries: Vec<SummaryRow> = Vec::new();
    let mut weekday_stats: Vec<StatRow> = Vec::new();
    let mut hour_stats: Vec<StatRow> = Vec::new();
    let mut i: usize = 0;
    while i < cs.len()
        invariant
            i <= cs.len(),
            snapshot_fits(*analysis),
            cs == analysis.contributions.contributors,
            acts == analysis.contributions.activity_by_contributor,
            summaries.len() == i,
            forall|k: int| 0 <= k < i ==> is_summary_of(#[trigger] summaries@[k], cs@[k], activity_of(*analysis, k)),
            weekday_stats@ == weekday_rows(cs@, acts@, i as int),
            hour_stats@ == hour_rows(cs@, acts@, i as int),
        decreases cs.len() - i,
    {
        let c = &cs[i];
        assert(c.lines_added + c.lines_deleted <= u64::MAX);
        let found = find_activity(acts, &c.email);
        proof {
            lemma_activity_for_range(acts@, c.email@);
        }
        let (w, h) = match found {
            Some(j) => {
                let a = &acts[j];
                assert(a.weekday_commits@.len() <= a.active_dates_by_weekday@.len());
                push_nonzero(&mut weekday_stats, i, &a.weekday_commits, &a.active_dates_by_weekday);
                push_nonzero(&mut hour_stats, i, &a.hour_commits, &a.active_hour_buckets_by_hour);
                (Some(max_index(&a.weekday_commits)), Some(max_index(&a.hour_commits)))
            },
            None => (None, None),
        };
        summaries.push(
            SummaryRow {
                email: c.email.clone(),
                name: c.name.clone(),
                commits: c.commits,
                lines_added: c.lines_added,
                lines_deleted: c.lines_deleted,
                lines_changed: c.lines_added + c.lines_deleted,
                files_touched: c.files_touched,
                active_days: c.active_days,
                first_commit: c.first_commit.clone(),
                last_commit: c.last_commit.clone(),
                most_active_weekday: w,
                most_active_hour: h,
            },
        );
        assert(is_summary_of(summaries@[i as int], cs@[i as int], activity_of(*analysis, i as int)));
        i = i + 1;
    }
    SnapshotRows {
        period_start,
        period_end,
        total_commits: analysis.contributions.total_commits,
        contributor_count: cs.len(),
        summaries,
        weekday_stats,
        hour_stats,
    }
}

} // verus!
