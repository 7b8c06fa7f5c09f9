//! Per-user activity over several repositories: the activity rows of a canonical key merged
//! into commit counts per weekday and hour and sets of active dates and hour buckets.
use vstd::prelude::*;

use crate::analytics::{
    MergeEvent, MergedRow, TrendsData, acts_dates, acts_entries, acts_weekday_dates, build_trends_data, date_totals_fit,
    event_keys, event_views, is_trends, key_name, key_sum, least_active_index, merge_events, merge_fits,
    merge_and_sort, merged_sorted, most_active_index, push_entries, sorted_merge, trends_defined, union_into, weekday_name,
    weekday_name_exec,
};
use crate::model::{ContributorActivityStats, ContributorStats, RepositoryAnalysis};
use crate::settings::{Settings, UserView, spec_canonical_key};
use crate::tally::sat_u32;
use crate::text::{lowercase, seq_lt, str_eq, str_lt, string_of_str, string_views, to_lowercase};

verus! {

broadcast use vstd::string::group_string_axioms;

// ---------------------------------------------------------------------------
// The activity rows of one key
// ---------------------------------------------------------------------------

/// The activity rows of `acts` whose email has the canonical key `key`, in order.
pub open spec fn acts_with_key(acts: Seq<ContributorActivityStats>, users: Seq<UserView>, key: Seq<char>) -> Seq<ContributorActivityStats>
    decreases acts.len(),
{
    if acts.len() == 0 {
        Seq::empty()
    } else {
        acts_with_key(acts.drop_last(), users, key) + if spec_canonical_key(users, acts.last().email@) == key {
            seq![acts.last()]
        } else {
            Seq::empty()
        }
    }
}

/// The activity rows of every repository whose email has the canonical key `key`, in order.
pub open spec fn key_acts(repos: Seq<RepositoryAnalysis>, users: Seq<UserView>, key: Seq<char>) -> Seq<ContributorActivityStats>
    decreases repos.len(),
{
    if repos.len() == 0 {
        Seq::empty()
    } else {
        key_acts(repos.drop_last(), users, key) + acts_with_key(
            repos.last().contributions.activity_by_contributor@,
            users,
            key,
        )
    }
}

/// The activity rows at the positions `pos` (repository, row).
pub open spec fn acts_at(repos: Seq<RepositoryAnalysis>, pos: Seq<(usize, usize)>) -> Seq<ContributorActivityStats> {
    pos.map_values(|p: (usize, usize)| repos[p.0 as int].contributions.activity_by_contributor@[p.1 as int])
}

pub open spec fn valid_positions(repos: Seq<RepositoryAnalysis>, pos: Seq<(usize, usize)>) -> bool {
    forall|k: int| 0 <= k < pos.len() ==> {
        let p = #[trigger] pos[k];
        p.0 < repos.len() && p.1 < repos[p.0 as int].contributions.activity_by_contributor@.len()
    }
}

/// The positions of the activity rows of `key`.
fn select_acts(repos: &Vec<RepositoryAnalysis>, settings: &Settings, key: &String) -> (r: Vec<(usize, usize)>)
    ensures
        valid_positions(repos@, r@),
        acts_at(repos@, r@) == key_acts(repos@, settings@, key@),
{
    let ghost users = settings@;
    let mut r: Vec<(usize, usize)> = Vec::new();
    let mut i: usize = 0;
    assert(acts_at(repos@, r@) =~= key_acts(repos@.take(0), users, key@));
    while i < repos.len()
        invariant
            i <= repos.len(),
            users == settings@,
            valid_positions(repos@, r@),
            acts_at(repos@, r@) == key_acts(repos@.take(i as int), users, key@),
        decreases repos.len() - i,
    {
        assert(repos@.take(i + 1).drop_last() =~= repos@.take(i as int));
        assert(repos@.take(i + 1).last() == repos@[i as int]);
        let acts = &repos[i].contributions.activity_by_contributor;
        let ghost base = acts_at(repos@, r@);
        let mut j: usize = 0;
        assert(acts_at(repos@, r@) =~= base + acts_with_key(acts@.take(0), users, key@));
        while j < acts.len()
            invariant
                i < repos.len(),
                j <= acts.len(),
                acts == &repos@[i as int].contributions.activity_by_contributor,
                users == settings@,
                valid_positions(repos@, r@),
                acts_at(repos@, r@) == base + acts_with_key(acts@.take(j as int), users, key@),
            decreases acts.len() - j,
        {
            assert(acts@.take(j + 1).drop_last() =~= acts@.take(j as int));
            assert(acts@.take(j + 1).last() == acts@[j as int]);
            let k = settings.canonical_key(acts[j].email.as_str());
            if k == *key {
                let ghost before = r@;
                r.push((i, j));
                assert(acts_at(repos@, r@) =~= acts_at(repos@, before).push(acts@[j as int]));
            }
            j = j + 1;
            assert(acts_at(repos@, r@) =~= base + acts_with_key(acts@.take(j as int), users, key@));
        }
        assert(acts@.take(acts.len() as int) =~= acts@);
        i = i + 1;
    }
    assert(repos@.take(repos.len() as int) =~= repos@);
    r
}

// ---------------------------------------------------------------------------
// Totals of activity rows
// ---------------------------------------------------------------------------

/// Slot `i` of a list of counts, 0 where the list is shorter.
pub open spec fn slot(v: Seq<u32>, i: int) -> nat {
    if 0 <= i < v.len() {
        v[i] as nat
    } else {
        0
    }
}

/// List `i` of a list of lists, empty where the list is shorter.
pub open spec fn slot_list(v: Seq<Vec<String>>, i: int) -> Seq<String> {
    if 0 <= i < v.len() {
        v[i]@
    } else {
        Seq::empty()
    }
}

/// The commits on weekday `d` summed over activity rows.
pub open spec fn weekday_total(acts: Seq<ContributorActivityStats>, d: int) -> nat
    decreases acts.len(),
{
    if acts.len() == 0 {
        0
    } else {
        weekday_total(acts.drop_last(), d) + slot(acts.last().weekday_commits@, d)
    }
}

/// The commits in hour `h` summed over activity rows.
pub open spec fn hour_total(acts: Seq<ContributorActivityStats>, h: int) -> nat
    decreases acts.len(),
{
    if acts.len() == 0 {
        0
    } else {
        hour_total(acts.drop_last(), h) + slot(acts.last().hour_commits@, h)
    }
}

/// The distinct `date:hour` buckets of activity rows.
pub open spec fn acts_buckets(acts: Seq<ContributorActivityStats>) -> Set<Seq<char>>
    decreases acts.len(),
{
    if acts.len() == 0 {
        Set::empty()
    } else {
        acts_buckets(acts.drop_last()).union(string_views(acts.last().active_hour_buckets@).to_set())
    }
}

/// The distinct buckets in hour `h` of activity rows.
pub open spec fn acts_hour_buckets(acts: Seq<ContributorActivityStats>, h: int) -> Set<Seq<char>>
    decreases acts.len(),
{
    if acts.len() == 0 {
        Set::empty()
    } else {
        acts_hour_buckets(acts.drop_last(), h).union(
            string_views(slot_list(acts.last().active_hour_buckets_by_hour@, h)).to_set(),
        )
    }
}

/// The activity rows of one user merged: commits per weekday and per hour (each saturating
/// at `u32::MAX`), and the numbers of distinct active dates and buckets, overall and per
/// weekday or hour.
pub struct MergedActivity {
    pub weekday_commits: Vec<u32>,
    pub hour_commits: Vec<u32>,
    pub active_dates: usize,
    pub weekday_dates: Vec<usize>,
    pub active_buckets: usize,
    pub hour_buckets: Vec<usize>,
}

/// `m` merges the activity rows `acts`.
pub open spec fn merges_activity(m: MergedActivity, acts: Seq<ContributorActivityStats>) -> bool {
    &&& m.weekday_commits.len() == 7
    &&& m.hour_commits.len() == 24
    &&& m.weekday_dates.len() == 7
    &&& m.hour_buckets.len() == 24
    &&& forall|d: int| 0 <= d < 7 ==> #[trigger] m.weekday_commits[d] == sat_u32(weekday_total(acts, d))
    &&& forall|h: int| 0 <= h < 24 ==> #[trigger] m.hour_commits[h] == sat_u32(hour_total(acts, h))
    &&& m.active_dates == acts_dates(acts).len()
    &&& forall|d: int| 0 <= d < 7 ==> #[trigger] m.weekday_dates[d] == acts_weekday_dates(acts, d).len()
    &&& m.active_buckets == acts_buckets(acts).len()
    &&& forall|h: int| 0 <= h < 24 ==> #[trigger] m.hour_buckets[h] == acts_hour_buckets(acts, h).len()
}

/// Adds `v` slot by slot to `counts`, saturating.
fn add_slots(counts: &mut Vec<u32>, v: &Vec<u32>)
    ensures
        final(counts).len() == old(counts).len(),
        forall|i: int| 0 <= i < old(counts).len() ==> #[trigger] final(counts)[i] == sat_u32(old(counts)[i] as nat + slot(v@, i)),
{
    let mut i: usize = 0;
    while i < counts.len()
        invariant
            i <= counts.len(),
            counts.len() == old(counts).len(),
            forall|t: int| 0 <= t < i ==> #[trigger] counts[t] == sat_u32(old(counts)[t] as nat + slot(v@, t)),
            forall|t: int| i <= t < counts.len() ==> #[trigger] counts[t] == old(counts)[t],
        decreases counts.len() - i,
    {
        let x: u32 = if i < v.len() { v[i] } else { 0 };
        let c = counts[i].saturating_add(x);
        counts.set(i, c);
        i = i + 1;
    }
}

/// Adds the strings of list `i` of `v` to list `i` of `lists`, for each `i`.
fn union_slots(lists: &mut Vec<Vec<String>>, v: &Vec<Vec<String>>)
    requires
        forall|i: int| 0 <= i < old(lists).len() ==> string_views((#[trigger] old(lists)[i])@).no_duplicates(),
    ensures
        final(lists).len() == old(lists).len(),
        forall|i: int| 0 <= i < final(lists).len() ==> string_views((#[trigger] final(lists)[i])@).no_duplicates(),
        forall|i: int| 0 <= i < final(lists).len() ==> string_views((#[trigger] final(lists)[i])@).to_set() == string_views(
            old(lists)[i]@,
        ).to_set().union(string_views(slot_list(v@, i)).to_set()),
{
    let mut i: usize = 0;
    while i < lists.len()
        invariant
            i <= lists.len(),
            lists.len() == old(lists).len(),
            forall|t: int| 0 <= t < lists.len() ==> string_views((#[trigger] lists[t])@).no_duplicates(),
            forall|t: int| 0 <= t < i ==> string_views((#[trigger] lists[t])@).to_set() == string_views(old(lists)[t]@).to_set().union(
                string_views(slot_list(v@, t)).to_set(),
            ),
            forall|t: int| i <= t < lists.len() ==> #[trigger] lists[t] == old(lists)[t],
        decreases lists.len() - i,
    {
        let ghost before = lists@;
        if i < v.len() {
            union_into(&mut lists[i], &v[i]);
        } else {
            assert(string_views(slot_list(v@, i as int)) =~= Seq::<Seq<char>>::empty());
            assert(string_views(lists[i as int]@).to_set() =~= string_views(old(lists)[i as int]@).to_set().union(
                string_views(slot_list(v@, i as int)).to_set(),
            ));
        }
        assert forall|t: int| 0 <= t < lists.len() && t != i implies (#[trigger] lists[t]) == before[t] by {}
        i = i + 1;
    }
}

fn empty_lists(n: usize) -> (r: Vec<Vec<String>>)
    ensures
        r.len() == n,
        forall|i: int| 0 <= i < n ==> (#[trigger] r[i])@.len() == 0,
{
    let mut r: Vec<Vec<String>> = Vec::new();
    let mut i: usize = 0;
    while i < n
        invariant
            i <= n,
            r.len() == i,
            forall|t: int| 0 <= t < i ==> (#[trigger] r[t])@.len() == 0,
        decreases n - i,
    {
        r.push(Vec::new());
        i = i + 1;
    }
    r
}

fn list_lens(lists: &Vec<Vec<String>>) -> (r: Vec<usize>)
    requires
        forall|i: int| 0 <= i < lists.len() ==> string_views((#[trigger] lists[i])@).no_duplicates(),
    ensures
        r.len() == lists.len(),
        forall|i: int| 0 <= i < lists.len() ==> #[trigger] r[i] == string_views(lists[i]@).to_set().len(),
{
    let mut r: Vec<usize> = Vec::new();
    let mut i: usize = 0;
    while i < lists.len()
        invariant
            i <= lists.len(),
            r.len() == i,
            forall|t: int| 0 <= t < lists.len() ==> string_views((#[trigger] lists[t])@).no_duplicates(),
            forall|t: int| 0 <= t < i ==> #[trigger] r[t] == string_views(lists[t]@).to_set().len(),
        decreases lists.len() - i,
    {
        proof {
            string_views(lists[i as int]@).unique_seq_to_set();
        }
        r.push(lists[i].len());
        i = i + 1;
    }
    r
}

/// The activity rows at the positions `pos` merged.
fn merge_activity(repos: &Vec<RepositoryAnalysis>, pos: &Vec<(usize, usize)>) -> (m: MergedActivity)
    requires
        valid_positions(repos@, pos@),
    ensures
        merges_activity(m, acts_at(repos@, pos@)),
{
    let ghost all = acts_at(repos@, pos@);
    let mut weekday: Vec<u32> = crate::model::zeros(7);
    let mut hour: Vec<u32> = crate::model::zeros(24);
    let mut dates: Vec<String> = Vec::new();
    let mut buckets: Vec<String> = Vec::new();
    let mut wd = empty_lists(7);
    let mut hb = empty_lists(24);
    proof {
        assert(all.take(0) =~= Seq::<ContributorActivityStats>::empty());
        assert(string_views(dates@).to_set() =~= Set::<Seq<char>>::empty());
        assert(string_views(buckets@).to_set() =~= Set::<Seq<char>>::empty());
        assert forall|d: int| 0 <= d < 7 implies string_views((#[trigger] wd[d])@).to_set() =~= acts_weekday_dates(all.take(0), d) by {
            assert(string_views(wd[d]@) =~= Seq::<Seq<char>>::empty());
        }
        assert forall|h: int| 0 <= h < 24 implies string_views((#[trigger] hb[h])@).to_set() =~= acts_hour_buckets(all.take(0), h) by {
            assert(string_views(hb[h]@) =~= Seq::<Seq<char>>::empty());
        }
        assert forall|d: int| 0 <= d < 7 implies string_views((#[trigger] wd[d])@).no_duplicates() by {
            assert(string_views(wd[d]@) =~= Seq::<Seq<char>>::empty());
        }
        assert forall|h: int| 0 <= h < 24 implies string_views((#[trigger] hb[h])@).no_duplicates() by {
            assert(string_views(hb[h]@) =~= Seq::<Seq<char>>::empty());
        }
    }
    let mut k: usize = 0;
    while k < pos.len()
        invariant
            k <= pos.len(),
            all == acts_at(repos@, pos@),
            valid_positions(repos@, pos@),
            weekday.len() == 7,
            hour.len() == 24,
            wd.len() == 7,
            hb.len() == 24,
            forall|d: int| 0 <= d < 7 ==> #[trigger] weekday[d] == sat_u32(weekday_total(all.take(k as int), d)),
            forall|h: int| 0 <= h < 24 ==> #[trigger] hour[h] == sat_u32(hour_total(all.take(k as int), h)),
            string_views(dates@).no_duplicates(),
            string_views(dates@).to_set() == acts_dates(all.take(k as int)),
            string_views(buckets@).no_duplicates(),
            string_views(buckets@).to_set() == acts_buckets(all.take(k as int)),
            forall|d: int| 0 <= d < 7 ==> string_views((#[trigger] wd[d])@).no_duplicates(),
            forall|d: int| 0 <= d < 7 ==> string_views((#[trigger] wd[d])@).to_set() == acts_weekday_dates(all.take(k as int), d),
            forall|h: int| 0 <= h < 24 ==> string_views((#[trigger] hb[h])@).no_duplicates(),
            forall|h: int| 0 <= h < 24 ==> string_views((#[trigger] hb[h])@).to_set() == acts_hour_buckets(all.take(k as int), h),
        decreases pos.len() - k,
    {
        let p = pos[k];
        assert(valid_positions(repos@, pos@));
        assert(p.0 < repos.len() && p.1 < repos@[p.0 as int].contributions.activity_by_contributor@.len());
        let a = &repos[p.0].contributions.activity_by_contributor[p.1];
        assert(all[k as int] == *a);
        assert(all.take(k + 1).drop_last() =~= all.take(k as int));
        assert(all.take(k + 1).last() == *a);
        let ghost w0 = weekday@;
        let ghost h0 = hour@;
        add_slots(&mut weekday, &a.weekday_commits);
        add_slots(&mut hour, &a.hour_commits);
        assert forall|d: int| 0 <= d < 7 implies #[trigger] weekday[d] == sat_u32(weekday_total(all.take(k + 1), d)) by {
            assert(w0[d] == sat_u32(weekday_total(all.take(k as int), d)));
        }
        assert forall|h: int| 0 <= h < 24 implies #[trigger] hour[h] == sat_u32(hour_total(all.take(k + 1), h)) by {
            assert(h0[h] == sat_u32(hour_total(all.take(k as int), h)));
        }
        union_into(&mut dates, &a.active_dates);
        union_into(&mut buckets, &a.active_hour_buckets);
        let ghost wd0 = wd@;
        let ghost hb0 = hb@;
        union_slots(&mut wd, &a.active_dates_by_weekday);
        union_slots(&mut hb, &a.active_hour_buckets_by_hour);
        assert forall|d: int| 0 <= d < 7 implies string_views((#[trigger] wd[d])@).to_set() == acts_weekday_dates(all.take(k + 1), d) by {
            assert(string_views(wd0[d]@).to_set() == acts_weekday_dates(all.take(k as int), d));
            if d < a.active_dates_by_weekday.len() {
            } else {
                assert(string_views(slot_list(a.active_dates_by_weekday@, d)) =~= Seq::<Seq<char>>::empty());
                assert(string_views(wd[d]@).to_set() =~= acts_weekday_dates(all.take(k + 1), d));
            }
        }
        assert forall|h: int| 0 <= h < 24 implies string_views((#[trigger] hb[h])@).to_set() == acts_hour_buckets(all.take(k + 1), h) by {
            assert(string_views(hb0[h]@).to_set() == acts_hour_buckets(all.take(k as int), h));
        }
        k = k + 1;
    }
    assert(all.take(pos.len() as int) =~= all);
    proof {
        string_views(dates@).unique_seq_to_set();
        string_views(buckets@).unique_seq_to_set();
    }
    let weekday_dates = list_lens(&wd);
    let hour_buckets = list_lens(&hb);
    MergedActivity {
        weekday_commits: weekday,
        hour_commits: hour,
        active_dates: dates.len(),
        weekday_dates,
        active_buckets: buckets.len(),
        hour_buckets,
    }
}

/// The activity rows of every repository under the canonical key `key`, merged.
pub fn key_activity(repos: &Vec<RepositoryAnalysis>, settings: &Settings, key: &String) -> (m: MergedActivity)
    ensures
        merges_activity(m, key_acts(repos@, settings@, key@)),
{
    let pos = select_acts(repos, settings, key);
    merge_activity(repos, &pos)
}

// ---------------------------------------------------------------------------
// Most active days and hours per user
// ---------------------------------------------------------------------------

/// `r` is what `most_active_index(v)` returns: the busiest slot, the last of several equally
/// busy ones, or `None` when every slot is 0.
pub open spec fn is_busiest(v: Seq<u32>, r: Option<usize>) -> bool {
    match r {
        Some(i) => {
            &&& i < v.len()
            &&& v[i as int] > 0
            &&& forall|j: int| 0 <= j < v.len() ==> v[j] <= v[i as int]
            &&& forall|j: int| i < j < v.len() ==> v[j] < v[i as int]
        },
        None => forall|j: int| 0 <= j < v.len() ==> v[j] == 0,
    }
}

/// One user's activity: the most active weekday (or `"N/A"`) with its commits and active
/// days, all commits and active days, the commits and active buckets of the most active
/// hour, and all active `date:hour` buckets.
///
/// The table shows the ratios: commits per active day on the best weekday
/// (`best_day_commits / best_day_active_days`), per active day (`commits / active_days`),
/// per active bucket in the best hour (`best_hour_commits / best_hour_active_buckets`) and
/// per active bucket (`commits / active_hour_buckets`), each 0 without days or buckets.
#[derive(Debug, Clone)]
pub struct UserActivityRow {
    pub identifier: String,
    pub most_active_week_day: String,
    pub best_day_commits: u64,
    pub best_day_active_days: u64,
    pub commits: u64,
    pub active_days: u64,
    pub best_hour_commits: u64,
    pub best_hour_active_buckets: u64,
    pub active_hour_buckets: u64,
}

/// `row` shows the merged contributor `m` with its merged activity `a`.
pub open spec fn is_activity_row(row: UserActivityRow, m: MergedRow, a: MergedActivity) -> bool {
    &&& row.identifier@ == m.0@
    &&& row.commits == m.2
    &&& row.active_days == a.active_dates
    &&& row.active_hour_buckets == a.active_buckets
    &&& exists|d: Option<usize>| #[trigger] is_busiest(a.weekday_commits@, d) && match d {
        Some(i) => row.most_active_week_day@ == weekday_name(i as int) && row.best_day_commits == a.weekday_commits[i as int]
            && row.best_day_active_days == a.weekday_dates[i as int],
        None => row.most_active_week_day@ == "N/A"@ && row.best_day_commits == 0 && row.best_day_active_days == 0,
    }
    &&& exists|h: Option<usize>| #[trigger] is_busiest(a.hour_commits@, h) && match h {
        Some(i) => row.best_hour_commits == a.hour_commits[i as int] && row.best_hour_active_buckets == a.hour_buckets[i as int],
        None => row.best_hour_commits == 0 && row.best_hour_active_buckets == 0,
    }
}

fn activity_row(m: &MergedRow, a: &MergedActivity) -> (row: UserActivityRow)
    requires
        a.weekday_commits.len() == 7,
        a.hour_commits.len() == 24,
        a.weekday_dates.len() == 7,
        a.hour_buckets.len() == 24,
    ensures
        is_activity_row(row, *m, *a),
{
    let d = most_active_index(&a.weekday_commits);
    let (day, bc, bd) = match d {
        Some(i) => (string_of_str(weekday_name_exec(i)), a.weekday_commits[i] as u64, a.weekday_dates[i] as u64),
        None => (string_of_str("N/A"), 0u64, 0u64),
    };
    let h = most_active_index(&a.hour_commits);
    let (hc, hb) = match h {
        Some(i) => (a.hour_commits[i] as u64, a.hour_buckets[i] as u64),
        None => (0u64, 0u64),
    };
    let row = UserActivityRow {
        identifier: m.0.clone(),
        most_active_week_day: day,
        best_day_commits: bc,
        best_day_active_days: bd,
        commits: m.2,
        active_days: a.active_dates as u64,
        best_hour_commits: hc,
        best_hour_active_buckets: hb,
        active_hour_buckets: a.active_buckets as u64,
    };
    assert(is_busiest(a.weekday_commits@, d));
    assert(is_busiest(a.hour_commits@, h));
    row
}

/// `r` holds the activity of every contributor of the repositories, one row per canonical
/// key, sorted by commits (most first) and then by key.
pub open spec fn is_user_activity_rows(r: Seq<UserActivityRow>, repos: Seq<RepositoryAnalysis>, users: Seq<UserView>) -> bool {
    exists|m: Seq<MergedRow>, acts: Seq<MergedActivity>|
        #![trigger sorted_merge(m, merge_events(repos, users)), acts.len()]
    {
        &&& sorted_merge(m, merge_events(repos, users))
        &&& r.len() == m.len() && acts.len() == m.len()
        &&& forall|i: int| 0 <= i < m.len() ==> merges_activity(#[trigger] acts[i], key_acts(repos, users, m[i].0@))
        &&& forall|i: int| 0 <= i < m.len() ==> is_activity_row(#[trigger] r[i], m[i], acts[i])
    }
}

/// The activity of every contributor of several repositories, one row per canonical key,
/// sorted by commits (most first) and then by key.
pub fn build_user_activity_rows(repos: &Vec<RepositoryAnalysis>, settings: &Settings) -> (r: Vec<UserActivityRow>)
    requires
        merge_fits(merge_events(repos@, settings@)),
    ensures
        is_user_activity_rows(r@, repos@, settings@),
{
    let m = merged_sorted(repos, settings);
    let mut r: Vec<UserActivityRow> = Vec::new();
    let ghost mut acts: Seq<MergedActivity> = Seq::empty();
    let mut i: usize = 0;
    while i < m.len()
        invariant
            i <= m.len(),
            r@.len() == i,
            acts.len() == i,
            forall|t: int| 0 <= t < i ==> merges_activity(#[trigger] acts[t], key_acts(repos@, settings@, m@[t].0@)),
            forall|t: int| 0 <= t < i ==> is_activity_row(#[trigger] r@[t], m@[t], acts[t]),
        decreases m.len() - i,
    {
        let a = key_activity(repos, settings, &m[i].0);
        let row = activity_row(&m[i], &a);
        r.push(row);
        proof {
            acts = acts.push(a);
        }
        i = i + 1;
    }
    r
}

// ---------------------------------------------------------------------------
// One user's effort
// ---------------------------------------------------------------------------

/// The contributor rows of `cs` whose email has the canonical key `key`, in order.
pub open spec fn contribs_with_key(cs: Seq<ContributorStats>, users: Seq<UserView>, key: Seq<char>) -> Seq<ContributorStats>
    decreases cs.len(),
{
    if cs.len() == 0 {
        Seq::empty()
    } else {
        contribs_with_key(cs.drop_last(), users, key) + if spec_canonical_key(users, cs.last().email@) == key {
            seq![cs.last()]
        } else {
            Seq::empty()
        }
    }
}

/// The contributor rows of every repository whose email has the canonical key `key`.
pub open spec fn key_contribs(repos: Seq<RepositoryAnalysis>, users: Seq<UserView>, key: Seq<char>) -> Seq<ContributorStats>
    decreases repos.len(),
{
    if repos.len() == 0 {
        Seq::empty()
    } else {
        key_contribs(repos.drop_last(), users, key) + contribs_with_key(repos.last().contributions.contributors@, users, key)
    }
}

pub open spec fn contribs_at(repos: Seq<RepositoryAnalysis>, pos: Seq<(usize, usize)>) -> Seq<ContributorStats> {
    pos.map_values(|p: (usize, usize)| repos[p.0 as int].contributions.contributors@[p.1 as int])
}

pub open spec fn valid_contrib_positions(repos: Seq<RepositoryAnalysis>, pos: Seq<(usize, usize)>) -> bool {
    forall|k: int| 0 <= k < pos.len() ==> {
        let p = #[trigger] pos[k];
        p.0 < repos.len() && p.1 < repos[p.0 as int].contributions.contributors@.len()
    }
}

/// The positions of the contributor rows of `key`.
fn select_contribs(repos: &Vec<RepositoryAnalysis>, settings: &Settings, key: &String) -> (r: Vec<(usize, usize)>)
    ensures
        valid_contrib_positions(repos@, r@),
        contribs_at(repos@, r@) == key_contribs(repos@, settings@, key@),
{
    let ghost users = settings@;
    let mut r: Vec<(usize, usize)> = Vec::new();
    let mut i: usize = 0;
    assert(contribs_at(repos@, r@) =~= key_contribs(repos@.take(0), users, key@));
    while i < repos.len()
        invariant
            i <= repos.len(),
            users == settings@,
            valid_contrib_positions(repos@, r@),
            contribs_at(repos@, r@) == key_contribs(repos@.take(i as int), users, key@),
        decreases repos.len() - i,
    {
        assert(repos@.take(i + 1).drop_last() =~= repos@.take(i as int));
        assert(repos@.take(i + 1).last() == repos@[i as int]);
        let cs = &repos[i].contributions.contributors;
        let ghost base = contribs_at(repos@, r@);
        let mut j: usize = 0;
        assert(contribs_at(repos@, r@) =~= base + contribs_with_key(cs@.take(0), users, key@));
        while j < cs.len()
            invariant
                i < repos.len(),
                j <= cs.len(),
                cs == &repos@[i as int].contributions.contributors,
                users == settings@,
                valid_contrib_positions(repos@, r@),
                contribs_at(repos@, r@) == base + contribs_with_key(cs@.take(j as int), users, key@),
            decreases cs.len() - j,
        {
            assert(cs@.take(j + 1).drop_last() =~= cs@.take(j as int));
            assert(cs@.take(j + 1).last() == cs@[j as int]);
            let k = settings.canonical_key(cs[j].email.as_str());
            if k == *key {
                let ghost before = r@;
                r.push((i, j));
                assert(contribs_at(repos@, r@) =~= contribs_at(repos@, before).push(cs@[j as int]));
            }
            j = j + 1;
            assert(contribs_at(repos@, r@) =~= base + contribs_with_key(cs@.take(j as int), users, key@));
        }
        assert(cs@.take(cs.len() as int) =~= cs@);
        i = i + 1;
    }
    assert(repos@.take(repos.len() as int) =~= repos@);
    r
}

/// The first commit over contributor rows: a row's replaces the one so far when that is
/// empty or the row's comes first.
pub open spec fn first_commit_of(cs: Seq<ContributorStats>) -> Seq<char>
    decreases cs.len(),
{
    if cs.len() == 0 {
        Seq::empty()
    } else {
        let acc = first_commit_of(cs.drop_last());
        let x = cs.last().first_commit@;
        if acc.len() == 0 || seq_lt(x, acc) {
            x
        } else {
            acc
        }
    }
}

/// The last commit over contributor rows: a row's replaces the one so far when that is
/// empty or the row's comes later.
pub open spec fn last_commit_of(cs: Seq<ContributorStats>) -> Seq<char>
    decreases cs.len(),
{
    if cs.len() == 0 {
        Seq::empty()
    } else {
        let acc = last_commit_of(cs.drop_last());
        let x = cs.last().last_commit@;
        if acc.len() == 0 || seq_lt(acc, x) {
            x
        } else {
            acc
        }
    }
}

/// The changed files per extension of contributor rows, as merge events keyed by
/// extension.
pub open spec fn ext_events(cs: Seq<ContributorStats>) -> Seq<(Seq<char>, Option<(Seq<char>, u64, u64, u64, u64)>)>
    decreases cs.len(),
{
    if cs.len() == 0 {
        Seq::empty()
    } else {
        ext_events(cs.drop_last()) + cs.last().file_extensions@.map_values(
            |e: (String, u64)| (e.0@, Some((Seq::<char>::empty(), e.1, 0u64, 0u64, 0u64))),
        )
    }
}

/// The per-date commits of the activity rows of `key`.
pub open spec fn key_entries(repos: Seq<RepositoryAnalysis>, users: Seq<UserView>, key: Seq<char>) -> Seq<(String, u32)> {
    acts_entries(key_acts(repos, users, key), None)
}

/// The merged key that `identifier` names: itself, or else its lowercased form.
pub open spec fn effort_key(repos: Seq<RepositoryAnalysis>, users: Seq<UserView>, identifier: Seq<char>) -> Option<Seq<char>> {
    let keys = event_keys(merge_events(repos, users));
    if keys.contains(identifier) {
        Some(identifier)
    } else if keys.contains(lowercase(identifier)) {
        Some(lowercase(identifier))
    } else {
        None
    }
}

/// One user's effort. The report shows these ratios, each 0 without days or commits:
/// commits per active day on the most and the least active weekday, commits per active
/// day, files per commit and per active day, lines modified per commit and per active day.
#[derive(Debug, Clone)]
pub struct UserEffortData {
    pub name: String,
    pub identifier: String,
    pub first_commit: String,
    pub last_commit: String,
    pub most_active_weekday: String,
    pub most_active_weekday_commits: u64,
    pub most_active_weekday_active_days: u64,
    pub commits: u64,
    pub active_days: u64,
    pub least_active_weekday: String,
    pub least_active_weekday_commits: u64,
    pub least_active_weekday_active_days: u64,
    pub files_touched: u64,
    /// Lines added plus lines deleted, saturating.
    pub lines_modified: u64,
    /// The three extensions with the most changed files (ties by extension), with counts.
    pub top_extensions: Vec<(String, u64)>,
    pub trends: TrendsData,
}

/// `r` is what `least_active_index(v)` returns: the quietest slot with commits, the first
/// of several equally quiet ones, or `None` when every slot is 0.
pub open spec fn is_quietest(v: Seq<u32>, r: Option<usize>) -> bool {
    match r {
        Some(i) => {
            &&& i < v.len()
            &&& v[i as int] > 0
            &&& forall|j: int| 0 <= j < v.len() && v[j] > 0 ==> v[i as int] <= v[j]
            &&& forall|j: int| 0 <= j < i && v[j] > 0 ==> v[i as int] < v[j]
        },
        None => forall|j: int| 0 <= j < v.len() ==> v[j] == 0,
    }
}

/// The weekday fields `(name, commits, active days)` of slot `d`, or `("N/A", 0, 0)`.
pub open spec fn weekday_fields(a: MergedActivity, d: Option<usize>) -> (Seq<char>, int, int) {
    match d {
        Some(i) => (weekday_name(i as int), a.weekday_commits[i as int] as int, a.weekday_dates[i as int] as int),
        None => ("N/A"@, 0, 0),
    }
}

pub open spec fn ext_views(v: Seq<(String, u64)>) -> Seq<(Seq<char>, u64)> {
    v.map_values(|e: (String, u64)| (e.0@, e.1))
}

/// The first three merged extensions, as `(extension, count)`.
pub open spec fn top_ext(m: Seq<MergedRow>) -> Seq<(Seq<char>, u64)> {
    let t = if m.len() <= 3 {
        m
    } else {
        m.take(3)
    };
    t.map_values(|r: MergedRow| (r.0@, r.2))
}

/// `e` is the effort of the merged key `k` of the repositories on the day `today`.
pub open spec fn is_effort(e: UserEffortData, repos: Seq<RepositoryAnalysis>, users: Seq<UserView>, k: Seq<char>, today: Seq<char>) -> bool {
    let evs = merge_events(repos, users);
    let cs = key_contribs(repos, users, k);
    &&& e.identifier@ == k
    &&& e.name@ == key_name(evs, k)
    &&& e.commits == key_sum(evs, k, 1)
    &&& e.lines_modified == if key_sum(evs, k, 2) + key_sum(evs, k, 3) > u64::MAX {
        u64::MAX as int
    } else {
        (key_sum(evs, k, 2) + key_sum(evs, k, 3)) as int
    }
    &&& e.files_touched == key_sum(evs, k, 4)
    &&& e.first_commit@ == first_commit_of(cs)
    &&& e.last_commit@ == last_commit_of(cs)
    &&& exists|a: MergedActivity, most: Option<usize>, least: Option<usize>|
        #![trigger merges_activity(a, key_acts(repos, users, k)), is_busiest(a.weekday_commits@, most), is_quietest(a.weekday_commits@, least)]
    {
        &&& merges_activity(a, key_acts(repos, users, k))
        &&& e.active_days == a.active_dates
        &&& is_busiest(a.weekday_commits@, most)
        &&& is_quietest(a.weekday_commits@, least)
        &&& (e.most_active_weekday@, e.most_active_weekday_commits as int, e.most_active_weekday_active_days as int)
            == weekday_fields(a, most)
        &&& (e.least_active_weekday@, e.least_active_weekday_commits as int, e.least_active_weekday_active_days as int)
            == weekday_fields(a, least)
    }
    &&& exists|m: Seq<MergedRow>| #[trigger] sorted_merge(m, ext_events(cs)) && ext_views(e.top_extensions@) == top_ext(m)
    &&& is_trends(e.trends, key_entries(repos, users, k), today)
}

/// The inputs on which the effort of key `k` can be computed: the merged sums fit, and so do
/// the per-date commits and the trends' window sums.
pub open spec fn effort_defined(repos: Seq<RepositoryAnalysis>, users: Seq<UserView>, k: Seq<char>, today: Seq<char>) -> bool {
    &&& merge_fits(ext_events(key_contribs(repos, users, k)))
    &&& date_totals_fit(key_entries(repos, users, k))
    &&& trends_defined(key_entries(repos, users, k), today)
}

fn find_merged(m: &Vec<MergedRow>, key: &str) -> (r: Option<usize>)
    ensures
        match r {
            Some(i) => i < m.len() && m@[i as int].0@ == key@,
            None => forall|i: int| 0 <= i < m.len() ==> m@[i].0@ != key@,
        },
{
    let mut i: usize = 0;
    while i < m.len()
        invariant
            i <= m.len(),
            forall|t: int| 0 <= t < i ==> m@[t].0@ != key@,
        decreases m.len() - i,
    {
        if str_eq(m[i].0.as_str(), key) {
            return Some(i);
        }
        i = i + 1;
    }
    None
}

fn commit_span(repos: &Vec<RepositoryAnalysis>, pos: &Vec<(usize, usize)>) -> (r: (String, String))
    requires
        valid_contrib_positions(repos@, pos@),
    ensures
        r.0@ == first_commit_of(contribs_at(repos@, pos@)),
        r.1@ == last_commit_of(contribs_at(repos@, pos@)),
{
    let ghost cs = contribs_at(repos@, pos@);
    let mut first = String::new();
    let mut last = String::new();
    let mut k: usize = 0;
    while k < pos.len()
        invariant
            k <= pos.len(),
            cs == contribs_at(repos@, pos@),
            valid_contrib_positions(repos@, pos@),
            first@ == first_commit_of(cs.take(k as int)),
            last@ == last_commit_of(cs.take(k as int)),
        decreases pos.len() - k,
    {
        let p = pos[k];
        assert(valid_contrib_positions(repos@, pos@));
        assert(p.0 < repos.len() && p.1 < repos@[p.0 as int].contributions.contributors@.len());
        let c = &repos[p.0].contributions.contributors[p.1];
        assert(cs[k as int] == *c);
        assert(cs.take(k + 1).drop_last() =~= cs.take(k as int));
        assert(cs.take(k + 1).last() == *c);
        if first.as_str().is_empty() || str_lt(c.first_commit.as_str(), first.as_str()) {
            first = c.first_commit.clone();
        }
        if last.as_str().is_empty() || str_lt(last.as_str(), c.last_commit.as_str()) {
            last = c.last_commit.clone();
        }
        k = k + 1;
    }
    assert(cs.take(pos.len() as int) =~= cs);
    (first, last)
}

fn ext_event_list(repos: &Vec<RepositoryAnalysis>, pos: &Vec<(usize, usize)>) -> (r: Vec<MergeEvent>)
    requires
        valid_contrib_positions(repos@, pos@),
    ensures
        event_views(r@) == ext_events(contribs_at(repos@, pos@)),
{
    let ghost cs = contribs_at(repos@, pos@);
    let mut r: Vec<MergeEvent> = Vec::new();
    let mut k: usize = 0;
    while k < pos.len()
        invariant
            k <= pos.len(),
            cs == contribs_at(repos@, pos@),
            valid_contrib_positions(repos@, pos@),
            event_views(r@) == ext_events(cs.take(k as int)),
        decreases pos.len() - k,
    {
        let p = pos[k];
        assert(valid_contrib_positions(repos@, pos@));
        assert(p.0 < repos.len() && p.1 < repos@[p.0 as int].contributions.contributors@.len());
        let c = &repos[p.0].contributions.contributors[p.1];
        assert(cs[k as int] == *c);
        assert(cs.take(k + 1).drop_last() =~= cs.take(k as int));
        assert(cs.take(k + 1).last() == *c);
        let ghost base = event_views(r@);
        let exts = &c.file_extensions;
        let mut j: usize = 0;
        while j < exts.len()
            invariant
                j <= exts.len(),
                event_views(r@) == base + exts@.take(j as int).map_values(
                    |e: (String, u64)| (e.0@, Some((Seq::<char>::empty(), e.1, 0u64, 0u64, 0u64))),
                ),
            decreases exts.len() - j,
        {
            let ev: MergeEvent = (exts[j].0.clone(), Some((String::new(), exts[j].1, 0u64, 0u64, 0u64)));
            let ghost before = r@;
            r.push(ev);
            assert(event_views(r@) =~= event_views(before).push(event_views(r@).last()));
            assert(exts@.take(j + 1).map_values(
                |e: (String, u64)| (e.0@, Some((Seq::<char>::empty(), e.1, 0u64, 0u64, 0u64))),
            ) =~= exts@.take(j as int).map_values(
                |e: (String, u64)| (e.0@, Some((Seq::<char>::empty(), e.1, 0u64, 0u64, 0u64))),
            ).push((exts@[j as int].0@, Some((Seq::<char>::empty(), exts@[j as int].1, 0u64, 0u64, 0u64)))));
            j = j + 1;
        }
        assert(exts@.take(exts.len() as int) =~= exts@);
        k = k + 1;
    }
    assert(cs.take(pos.len() as int) =~= cs);
    r
}

fn key_entry_list(repos: &Vec<RepositoryAnalysis>, pos: &Vec<(usize, usize)>) -> (r: Vec<(String, u32)>)
    requires
        valid_positions(repos@, pos@),
    ensures
        r@ == acts_entries(acts_at(repos@, pos@), None),
{
    let ghost all = acts_at(repos@, pos@);
    let mut r: Vec<(String, u32)> = Vec::new();
    let mut k: usize = 0;
    while k < pos.len()
        invariant
            k <= pos.len(),
            all == acts_at(repos@, pos@),
            valid_positions(repos@, pos@),
            r@ == acts_entries(all.take(k as int), None),
        decreases pos.len() - k,
    {
        let p = pos[k];
        assert(valid_positions(repos@, pos@));
        assert(p.0 < repos.len() && p.1 < repos@[p.0 as int].contributions.activity_by_contributor@.len());
        let a = &repos[p.0].contributions.activity_by_contributor[p.1];
        assert(all[k as int] == *a);
        assert(all.take(k + 1).drop_last() =~= all.take(k as int));
        assert(all.take(k + 1).last() == *a);
        push_entries(&mut r, &a.commits_by_date);
        k = k + 1;
    }
    assert(all.take(pos.len() as int) =~= all);
    r
}

fn weekday_fields_exec(a: &MergedActivity, d: Option<usize>) -> (r: (String, u64, u64))
    requires
        a.weekday_commits.len() == 7,
        a.weekday_dates.len() == 7,
        d matches Some(i) ==> i < 7,
    ensures
        (r.0@, r.1 as int, r.2 as int) == weekday_fields(*a, d),
{
    match d {
        Some(i) => (string_of_str(weekday_name_exec(i)), a.weekday_commits[i] as u64, a.weekday_dates[i] as u64),
        None => (string_of_str("N/A"), 0, 0),
    }
}

/// The effort of the merged key `key`.
fn effort_of(repos: &Vec<RepositoryAnalysis>, settings: &Settings, row: &MergedRow, today: &str) -> (e: UserEffortData)
    requires
        effort_defined(repos@, settings@, row.0@, today@),
        ({
            let evs = merge_events(repos@, settings@);
            &&& row.1@ == key_name(evs, row.0@)
            &&& row.2 == key_sum(evs, row.0@, 1)
            &&& row.3 == key_sum(evs, row.0@, 2)
            &&& row.4 == key_sum(evs, row.0@, 3)
            &&& row.5 == key_sum(evs, row.0@, 4)
        }),
    ensures
        is_effort(e, repos@, settings@, row.0@, today@),
{
    let key = &row.0;
    let a = key_activity(repos, settings, key);
    let most = most_active_index(&a.weekday_commits);
    let least = least_active_index(&a.weekday_commits);
    let (most_name, most_commits, most_days) = weekday_fields_exec(&a, most);
    let (least_name, least_commits, least_days) = weekday_fields_exec(&a, least);
    let cpos = select_contribs(repos, settings, key);
    let (first_commit, last_commit) = commit_span(repos, &cpos);
    let events = ext_event_list(repos, &cpos);
    let exts = merge_and_sort(&events);
    let ghost m = exts@;
    assert(sorted_merge(m, ext_events(key_contribs(repos@, settings@, key@))));
    let mut top: Vec<(String, u64)> = Vec::new();
    let n = if exts.len() < 3 { exts.len() } else { 3 };
    let mut i: usize = 0;
    while i < n
        invariant
            i <= n <= exts.len(),
            n == if exts.len() < 3 { exts.len() } else { 3 },
            ext_views(top@) == exts@.take(i as int).map_values(|r: MergedRow| (r.0@, r.2)),
        decreases n - i,
    {
        top.push((exts[i].0.clone(), exts[i].2));
        assert(exts@.take(i + 1).map_values(|r: MergedRow| (r.0@, r.2)) =~= exts@.take(i as int).map_values(
            |r: MergedRow| (r.0@, r.2),
        ).push((exts@[i as int].0@, exts@[i as int].2)));
        assert(ext_views(top@) =~= exts@.take(i + 1).map_values(|r: MergedRow| (r.0@, r.2)));
        i = i + 1;
    }
    assert(ext_views(top@) =~= top_ext(m)) by {
        if exts.len() <= 3 {
            assert(exts@.take(n as int) =~= exts@);
        }
    }
    let apos = select_acts(repos, settings, key);
    let entries = key_entry_list(repos, &apos);
    let trends = build_trends_data(&entries, today);
    let e = UserEffortData {
        name: row.1.clone(),
        identifier: key.clone(),
        first_commit,
        last_commit,
        most_active_weekday: most_name,
        most_active_weekday_commits: most_commits,
        most_active_weekday_active_days: most_days,
        commits: row.2,
        active_days: a.active_dates as u64,
        least_active_weekday: least_name,
        least_active_weekday_commits: least_commits,
        least_active_weekday_active_days: least_days,
        files_touched: row.5,
        lines_modified: row.3.saturating_add(row.4),
        top_extensions: top,
        trends,
    };
    assert(merges_activity(a, key_acts(repos@, settings@, key@)));
    assert(is_busiest(a.weekday_commits@, most));
    assert(is_quietest(a.weekday_commits@, least));
    assert(sorted_merge(m, ext_events(key_contribs(repos@, settings@, key@))));
    e
}

/// The effort of the user named `identifier` (a merged key as it is, or else lowercased)
/// over several repositories, with the trends for the day `today`; `None` when no
/// contributor has that key.
pub fn build_user_effort_data(repos: &Vec<RepositoryAnalysis>, identifier: &str, settings: &Settings, today: &str) -> (r: Option<UserEffortData>)
    requires
        merge_fits(merge_events(repos@, settings@)),
        forall|k: Seq<char>| #[trigger] effort_defined(repos@, settings@, k, today@),
    ensures
        match effort_key(repos@, settings@, identifier@) {
            Some(k) => r matches Some(e) && is_effort(e, repos@, settings@, k, today@),
            None => r is None,
        },
{
    let m = merged_sorted(repos, settings);
    let ghost evs = merge_events(repos@, settings@);
    let ghost keys = event_keys(evs);
    assert(sorted_merge(m@, evs));
    let found = match find_merged(&m, identifier) {
        Some(i) => Some(i),
        None => {
            let lower = to_lowercase(identifier);
            find_merged(&m, lower.as_str())
        },
    };
    proof {
        assert forall|k: Seq<char>| keys.contains(k) <==> exists|i: int| 0 <= i < m.len() && #[trigger] m@[i].0@ == k by {
            if keys.contains(k) {
                assert(keys.to_set().contains(k));
                assert(crate::analytics::merged_keys(m@).to_set().contains(k));
                let i = choose|i: int| 0 <= i < crate::analytics::merged_keys(m@).len() && crate::analytics::merged_keys(m@)[i] == k;
                assert(m@[i].0@ == k);
            }
            if exists|i: int| 0 <= i < m.len() && #[trigger] m@[i].0@ == k {
                let i = choose|i: int| 0 <= i < m.len() && #[trigger] m@[i].0@ == k;
                assert(crate::analytics::merged_keys(m@)[i] == k);
                assert(crate::analytics::merged_keys(m@).to_set().contains(k));
                assert(keys.to_set().contains(k));
            }
        }
    }
    match found {
        Some(i) => {
            assert(keys.contains(m@[i as int].0@));
            Some(effort_of(repos, settings, &m[i], today))
        },
        None => None,
    }
}

} // verus!
