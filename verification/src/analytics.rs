//! Derived figures: busiest and quietest weekdays, commit trends, chart data.
use vstd::prelude::*;

use crate::date_util::{
    add_days, day_of_week, dow_in_range, month_abbrev, parse_ymd, parsed_or_epoch, spec_add_days,
    spec_day_of_week, spec_format_unix_timestamp, spec_month_abbrev, spec_parse_ymd, spec_to_jdn,
    to_jdn, today_ymd,
};
use crate::model::{
    ComparisonReport, ComparisonSummary, ContributorActivityStats, DAYS_IN_WEEK, HEATMAP_MAX_WEEKS, HeatmapData,
    PartialFailure, RepositoryAnalysis, zero_grid,
};
use crate::settings::{Settings, UserView, spec_canonical_key, spec_emails_for_key};
use crate::tally::{date_totals, entries_total, entry_keys, is_date_totals, lemma_absent_total};
use crate::text::{
    str_chars, contains_string, insert_string, lowercase, push_pad_left, seq_lt, str_lt, string_from_chars,
    string_of_str, string_views, to_lowercase, u64_chars,
};

verus! {

broadcast use vstd::string::group_string_axioms;

// ---------------------------------------------------------------------------
// Busiest and quietest slots
// ---------------------------------------------------------------------------

/// Index of the busiest slot (the last of several equally busy ones), `None` when all are 0.
pub fn most_active_index(arr: &Vec<u32>) -> (r: Option<usize>)
    ensures
        match r {
            Some(i) => {
                &&& i < arr.len()
                &&& arr[i as int] > 0
                &&& forall|j: int| 0 <= j < arr.len() ==> arr[j] <= arr[i as int]
                &&& forall|j: int| i < j < arr.len() ==> arr[j] < arr[i as int]
            },
            None => forall|j: int| 0 <= j < arr.len() ==> arr[j] == 0,
        },
{
    if arr.len() == 0 {
        return None;
    }
    let mut best: usize = 0;
    let mut i: usize = 1;
    while i < arr.len()
        invariant
            1 <= i <= arr.len(),
            best < i,
            forall|j: int| 0 <= j < i ==> arr[j] <= arr[best as int],
            forall|j: int| best < j < i ==> arr[j] < arr[best as int],
        decreases arr.len() - i,
    {
        if arr[i] >= arr[best] {
            best = i;
        }
        i = i + 1;
    }
    if arr[best] > 0 {
        Some(best)
    } else {
        None
    }
}

/// Index of the quietest slot that has any commits (the first of several equally quiet
/// ones), `None` when all are 0.
pub fn least_active_index(arr: &Vec<u32>) -> (r: Option<usize>)
    ensures
        match r {
            Some(i) => {
                &&& i < arr.len()
                &&& arr[i as int] > 0
                &&& forall|j: int| 0 <= j < arr.len() && arr[j] > 0 ==> arr[i as int] <= arr[j]
                &&& forall|j: int| 0 <= j < i && arr[j] > 0 ==> arr[i as int] < arr[j]
            },
            None => forall|j: int| 0 <= j < arr.len() ==> arr[j] == 0,
        },
{
    let mut best: Option<usize> = None;
    let mut i: usize = 0;
    while i < arr.len()
        invariant
            i <= arr.len(),
            match best {
                Some(b) => {
                    &&& b < i
                    &&& arr[b as int] > 0
                    &&& forall|j: int| 0 <= j < i && arr[j] > 0 ==> arr[b as int] <= arr[j]
                    &&& forall|j: int| 0 <= j < b && arr[j] > 0 ==> arr[b as int] < arr[j]
                },
                None => forall|j: int| 0 <= j < i ==> arr[j] == 0,
            },
        decreases arr.len() - i,
    {
        if arr[i] > 0 {
            match best {
                Some(b) => {
                    if arr[i] < arr[b] {
                        best = Some(i);
                    }
                },
                None => {
                    best = Some(i);
                },
            }
        }
        i = i + 1;
    }
    best
}

// ---------------------------------------------------------------------------
// Trends
// ---------------------------------------------------------------------------

/// `start <= d <= end` in the order of strings.
pub open spec fn in_window(d: Seq<char>, start: Seq<char>, end: Seq<char>) -> bool {
    !seq_lt(d, start) && !seq_lt(end, d)
}

/// Commits of the dates within `[start, end]`.
pub open spec fn window_sum(entries: Seq<(String, u32)>, start: Seq<char>, end: Seq<char>) -> nat
    decreases entries.len(),
{
    if entries.len() == 0 {
        0
    } else {
        window_sum(entries.drop_last(), start, end) + if in_window(entries.last().0@, start, end) {
            entries.last().1 as nat
        } else {
            0nat
        }
    }
}

/// Sum commits of the dates that fall in the inclusive window `[start, end]`.
pub fn sum_commits_in_window(commits_by_date: &Vec<(String, u32)>, start: &str, end: &str) -> (r: u64)
    requires
        !seq_lt(end@, start@),
        window_sum(commits_by_date@, start@, end@) <= u64::MAX,
    ensures
        r == window_sum(commits_by_date@, start@, end@),
{
    let mut total: u64 = 0;
    let mut i: usize = 0;
    while i < commits_by_date.len()
        invariant
            i <= commits_by_date.len(),
            total == window_sum(commits_by_date@.take(i as int), start@, end@),
            window_sum(commits_by_date@, start@, end@) <= u64::MAX,
        decreases commits_by_date.len() - i,
    {
        assert(commits_by_date@.take(i + 1).drop_last() =~= commits_by_date@.take(i as int));
        proof {
            lemma_window_sum_prefix(commits_by_date@, i + 1, start@, end@);
        }
        let d = commits_by_date[i].0.as_str();
        if !str_lt(d, start) && !str_lt(end, d) {
            total = total + commits_by_date[i].1 as u64;
        }
        i = i + 1;
    }
    assert(commits_by_date@.take(commits_by_date.len() as int) =~= commits_by_date@);
    total
}

proof fn lemma_window_sum_prefix(entries: Seq<(String, u32)>, k: int, start: Seq<char>, end: Seq<char>)
    requires
        0 <= k <= entries.len(),
    ensures
        window_sum(entries.take(k), start, end) <= window_sum(entries, start, end),
    decreases entries.len() - k,
{
    if k < entries.len() {
        lemma_window_sum_prefix(entries, k + 1, start, end);
        assert(entries.take(k + 1).drop_last() =~= entries.take(k));
    } else {
        assert(entries.take(k) =~= entries);
    }
}

/// Commit counts of the 30- and 90-day windows ending on `reference_date`, and of the
/// windows of the same length just before them.
///
/// Averages per day are these counts over 30 or 90; a change in percent is defined when the
/// earlier window has commits.
#[derive(Debug, Clone)]
pub struct TrendsData {
    pub reference_date: String,
    pub last_30d_commits: u64,
    pub prev_30d_commits: u64,
    pub last_90d_commits: u64,
    pub prev_90d_commits: u64,
}

impl TrendsData {
    /// Whether the 30-day change in percent is defined (the previous window has commits).
    pub fn has_change_30d(&self) -> (b: bool)
        ensures
            b == (self.prev_30d_commits > 0),
    {
        self.prev_30d_commits > 0
    }

    /// Whether the 90-day change in percent is defined (the previous window has commits).
    pub fn has_change_90d(&self) -> (b: bool)
        ensures
            b == (self.prev_90d_commits > 0),
    {
        self.prev_90d_commits > 0
    }
}

/// The windows of the trends for `today`, as inclusive `(start, end)` pairs: last 30 days,
/// the 30 before, last 90 days, the 90 before.
pub open spec fn trend_windows(today: Seq<char>) -> Seq<(Seq<char>, Seq<char>)> {
    seq![
        (spec_add_days(today, -29), today),
        (spec_add_days(today, -59), spec_add_days(today, -30)),
        (spec_add_days(today, -89), today),
        (spec_add_days(today, -179), spec_add_days(today, -90)),
    ]
}

/// The inputs on which the trends can be computed: `today` is not a date, or each window's
/// start does not come after its end and each window's sum fits in `u64`.
pub open spec fn trends_defined(entries: Seq<(String, u32)>, today: Seq<char>) -> bool {
    spec_parse_ymd(today) is Some ==> forall|k: int| 0 <= k < 4 ==> {
        let w = #[trigger] trend_windows(today)[k];
        !seq_lt(w.1, w.0) && window_sum(entries, w.0, w.1) <= u64::MAX
    }
}

/// Compute trends (30-day and 90-day, current vs previous window) from per-date commits.
///
/// Windows are inclusive: last 30 days `[today-29 .. today]`, previous 30 days
/// `[today-59 .. today-30]`, last 90 days `[today-89 .. today]`, previous 90 days
/// `[today-179 .. today-90]`. If `today` is not a valid "YYYY-MM-DD" date, every count is
/// zero and `today` is echoed back as the reference date.
/// `r` holds the trends of the per-date commits `entries` for the day `today`.
pub open spec fn is_trends(r: TrendsData, entries: Seq<(String, u32)>, today: Seq<char>) -> bool {
    &&& r.reference_date@ == today
    &&& spec_parse_ymd(today) is None ==> r.last_30d_commits == 0 && r.prev_30d_commits == 0 && r.last_90d_commits == 0
        && r.prev_90d_commits == 0
    &&& spec_parse_ymd(today) is Some ==> {
        &&& r.last_30d_commits == window_sum(entries, trend_windows(today)[0].0, trend_windows(today)[0].1)
        &&& r.prev_30d_commits == window_sum(entries, trend_windows(today)[1].0, trend_windows(today)[1].1)
        &&& r.last_90d_commits == window_sum(entries, trend_windows(today)[2].0, trend_windows(today)[2].1)
        &&& r.prev_90d_commits == window_sum(entries, trend_windows(today)[3].0, trend_windows(today)[3].1)
    }
}

pub fn build_trends_data(commits_by_date: &Vec<(String, u32)>, today: &str) -> (r: TrendsData)
    requires
        trends_defined(commits_by_date@, today@),
    ensures
        is_trends(r, commits_by_date@, today@),
{
    if parse_ymd(today).is_none() {
        return TrendsData {
            reference_date: string_of_str(today),
            last_30d_commits: 0,
            prev_30d_commits: 0,
            last_90d_commits: 0,
            prev_90d_commits: 0,
        };
    }
    let ghost ws = trend_windows(today@);
    assert(ws[0] == (spec_add_days(today@, -29), today@));
    assert(ws[1] == (spec_add_days(today@, -59), spec_add_days(today@, -30)));
    assert(ws[2] == (spec_add_days(today@, -89), today@));
    assert(ws[3] == (spec_add_days(today@, -179), spec_add_days(today@, -90)));
    let last_30d_start = add_days(today, -29);
    let prev_30d_end = add_days(today, -30);
    let prev_30d_start = add_days(today, -59);
    let last_90d_start = add_days(today, -89);
    let prev_90d_end = add_days(today, -90);
    let prev_90d_start = add_days(today, -179);
    let last_30d_commits = sum_commits_in_window(commits_by_date, last_30d_start.as_str(), today);
    let prev_30d_commits = sum_commits_in_window(commits_by_date, prev_30d_start.as_str(), prev_30d_end.as_str());
    let last_90d_commits = sum_commits_in_window(commits_by_date, last_90d_start.as_str(), today);
    let prev_90d_commits = sum_commits_in_window(commits_by_date, prev_90d_start.as_str(), prev_90d_end.as_str());
    TrendsData {
        reference_date: string_of_str(today),
        last_30d_commits,
        prev_30d_commits,
        last_90d_commits,
        prev_90d_commits,
    }
}

/// Whether `build_trends_data` may be called: the windows for `today` are ordered and their
/// sums fit.
pub fn trends_defined_exec(commits_by_date: &Vec<(String, u32)>, today: &str) -> (b: bool)
    ensures
        b == trends_defined(commits_by_date@, today@),
{
    if parse_ymd(today).is_none() {
        return true;
    }
    let ghost ws = trend_windows(today@);
    let s0 = add_days(today, -29);
    let s1 = add_days(today, -59);
    let e1 = add_days(today, -30);
    let s2 = add_days(today, -89);
    let s3 = add_days(today, -179);
    let e3 = add_days(today, -90);
    assert(ws[0] == (s0@, today@));
    assert(ws[1] == (s1@, e1@));
    assert(ws[2] == (s2@, today@));
    assert(ws[3] == (s3@, e3@));
    let ok = window_fits(commits_by_date, s0.as_str(), today) && window_fits(commits_by_date, s1.as_str(), e1.as_str())
        && window_fits(commits_by_date, s2.as_str(), today) && window_fits(commits_by_date, s3.as_str(), e3.as_str());
    proof {
        if !ok {
            if !(!seq_lt(ws[0].1, ws[0].0) && window_sum(commits_by_date@, ws[0].0, ws[0].1) <= u64::MAX) {
            } else if !(!seq_lt(ws[1].1, ws[1].0) && window_sum(commits_by_date@, ws[1].0, ws[1].1) <= u64::MAX) {
            } else if !(!seq_lt(ws[2].1, ws[2].0) && window_sum(commits_by_date@, ws[2].0, ws[2].1) <= u64::MAX) {
            } else {
            }
        }
    }
    ok
}

/// Whether a window is ordered and its sum fits in `u64`.
fn window_fits(commits_by_date: &Vec<(String, u32)>, start: &str, end: &str) -> (b: bool)
    ensures
        b == (!seq_lt(end@, start@) && window_sum(commits_by_date@, start@, end@) <= u64::MAX),
{
    if str_lt(end, start) {
        return false;
    }
    let mut total: u128 = 0;
    let mut i: usize = 0;
    while i < commits_by_date.len()
        invariant
            i <= commits_by_date.len(),
            total == window_sum(commits_by_date@.take(i as int), start@, end@),
            total <= u64::MAX,
        decreases commits_by_date.len() - i,
    {
        assert(commits_by_date@.take(i + 1).drop_last() =~= commits_by_date@.take(i as int));
        let d = commits_by_date[i].0.as_str();
        if !str_lt(d, start) && !str_lt(end, d) {
            total = total + commits_by_date[i].1 as u128;
        }
        i = i + 1;
        if total > u64::MAX as u128 {
            proof {
                lemma_window_sum_prefix(commits_by_date@, i as int, start@, end@);
            }
            return false;
        }
    }
    assert(commits_by_date@.take(commits_by_date.len() as int) =~= commits_by_date@);
    true
}

// ---------------------------------------------------------------------------
// Chart data
// ---------------------------------------------------------------------------

/// A titled list of labelled values.
#[derive(Debug, Clone)]
pub struct BarChartData {
    pub title: String,
    pub bars: Vec<(String, u64)>,
}

/// Daily commit counts over a period, in date order.
#[derive(Debug, Clone)]
pub struct TimelineData {
    pub title: String,
    pub points: Vec<(String, u32)>,
    pub start_date: String,
    pub end_date: String,
}

/// English weekday names, Monday first.
pub open spec fn weekday_name(i: int) -> Seq<char> {
    if i == 0 {
        "Monday"@
    } else if i == 1 {
        "Tuesday"@
    } else if i == 2 {
        "Wednesday"@
    } else if i == 3 {
        "Thursday"@
    } else if i == 4 {
        "Friday"@
    } else if i == 5 {
        "Saturday"@
    } else {
        "Sunday"@
    }
}

/// The English name of weekday `i` (0 = Monday).
pub fn weekday_name_exec(i: usize) -> (s: &'static str)
    requires
        i < 7,
    ensures
        s@ == weekday_name(i as int),
{
    if i == 0 {
        "Monday"
    } else if i == 1 {
        "Tuesday"
    } else if i == 2 {
        "Wednesday"
    } else if i == 3 {
        "Thursday"
    } else if i == 4 {
        "Friday"
    } else if i == 5 {
        "Saturday"
    } else {
        "Sunday"
    }
}

/// The sum of slot `k` of the given histograms.
pub open spec fn slot_total(hists: Seq<Seq<u32>>, k: int) -> nat
    decreases hists.len(),
{
    if hists.len() == 0 {
        0
    } else {
        slot_total(hists.drop_last(), k) + hists.last()[k] as nat
    }
}

pub open spec fn weekday_hists(repos: Seq<RepositoryAnalysis>) -> Seq<Seq<u32>> {
    repos.map_values(|r: RepositoryAnalysis| r.activity.by_weekday@)
}

pub open spec fn hour_hists(repos: Seq<RepositoryAnalysis>) -> Seq<Seq<u32>> {
    repos.map_values(|r: RepositoryAnalysis| r.activity.by_hour@)
}

proof fn lemma_slot_total_bound(hists: Seq<Seq<u32>>, k: int)
    ensures
        slot_total(hists, k) <= hists.len() * 0xffff_ffff,
    decreases hists.len(),
{
    if hists.len() > 0 {
        lemma_slot_total_bound(hists.drop_last(), k);
    }
}

/// Totals of each slot over several histograms of length `n`.
fn slot_totals(hists: &Vec<Vec<u32>>, n: usize) -> (r: Vec<u64>)
    requires
        hists.len() <= 0xffff_ffff,
        forall|i: int| 0 <= i < hists.len() ==> (#[trigger] hists[i]).len() == n,
    ensures
        r.len() == n,
        forall|k: int| 0 <= k < n ==> r[k] == slot_total(hists@.map_values(|h: Vec<u32>| h@), k),
{
    let ghost hs = hists@.map_values(|h: Vec<u32>| h@);
    let mut r: Vec<u64> = Vec::new();
    let mut k: usize = 0;
    while k < n
        invariant
            k <= n,
            hists.len() <= 0xffff_ffff,
            forall|i: int| 0 <= i < hists.len() ==> (#[trigger] hists[i]).len() == n,
            hs == hists@.map_values(|h: Vec<u32>| h@),
            r.len() == k,
            forall|j: int| 0 <= j < k ==> r[j] == slot_total(hs, j),
        decreases n - k,
    {
        let mut t: u64 = 0;
        let mut i: usize = 0;
        while i < hists.len()
            invariant
                i <= hists.len() <= 0xffff_ffff,
                k < n,
                forall|a: int| 0 <= a < hists.len() ==> (#[trigger] hists[a]).len() == n,
                hs == hists@.map_values(|h: Vec<u32>| h@),
                t == slot_total(hs.take(i as int), k as int),
            decreases hists.len() - i,
        {
            assert(hs.take(i + 1).drop_last() =~= hs.take(i as int));
            assert(hs.take(i + 1).last() == hists@[i as int]@);
            proof {
                lemma_slot_total_bound(hs.take(i as int), k as int);
            }
            t = t + hists[i][k] as u64;
            i = i + 1;
        }
        assert(hs.take(hists.len() as int) =~= hs);
        r.push(t);
        k = k + 1;
    }
    r
}

/// Commits per weekday summed over several repositories, as bars named Monday to Sunday.
pub fn build_weekday_chart_data(repos: &Vec<RepositoryAnalysis>) -> (r: BarChartData)
    requires
        repos.len() <= 0xffff_ffff,
        forall|i: int| 0 <= i < repos.len() ==> (#[trigger] repos[i]).activity.wf(),
    ensures
        r.title@ == "Commits by Weekday"@,
        r.bars.len() == 7,
        forall|d: int| 0 <= d < 7 ==> (#[trigger] r.bars[d]).0@ == weekday_name(d) && r.bars[d].1
            == slot_total(weekday_hists(repos@), d),
{
    let mut hists: Vec<Vec<u32>> = Vec::new();
    let mut i: usize = 0;
    while i < repos.len()
        invariant
            i <= repos.len(),
            forall|a: int| 0 <= a < repos.len() ==> (#[trigger] repos[a]).activity.wf(),
            hists.len() == i,
            forall|a: int| 0 <= a < i ==> (#[trigger] hists[a])@ == repos[a].activity.by_weekday@,
        decreases repos.len() - i,
    {
        hists.push(copy_counts(&repos[i].activity.by_weekday));
        i = i + 1;
    }
    assert(hists@.map_values(|h: Vec<u32>| h@) =~= weekday_hists(repos@));
    let totals = slot_totals(&hists, 7);
    let mut bars: Vec<(String, u64)> = Vec::new();
    let mut d: usize = 0;
    while d < 7
        invariant
            d <= 7,
            totals.len() == 7,
            forall|k: int| 0 <= k < 7 ==> totals[k] == slot_total(weekday_hists(repos@), k),
            bars.len() == d,
            forall|k: int| 0 <= k < d ==> (#[trigger] bars[k]).0@ == weekday_name(k) && bars[k].1 == totals[k],
        decreases 7 - d,
    {
        bars.push((string_of_str(weekday_name_exec(d)), totals[d]));
        d = d + 1;
    }
    BarChartData { title: string_of_str("Commits by Weekday"), bars }
}

/// The label of hour `h`: two digits and `":00"`.
pub open spec fn hour_label(h: nat) -> Seq<char> {
    crate::text::pad_left(crate::text::nat_digits(h), 2, '0') + ":00"@
}

/// Commits per hour summed over several repositories, as bars named `"00:00"` to `"23:00"`.
pub fn build_hourly_chart_data(repos: &Vec<RepositoryAnalysis>) -> (r: BarChartData)
    requires
        repos.len() <= 0xffff_ffff,
        forall|i: int| 0 <= i < repos.len() ==> (#[trigger] repos[i]).activity.wf(),
    ensures
        r.title@ == "Commits by Hour"@,
        r.bars.len() == 24,
        forall|h: int| 0 <= h < 24 ==> (#[trigger] r.bars[h]).0@ == hour_label(h as nat) && r.bars[h].1
            == slot_total(hour_hists(repos@), h),
{
    let mut hists: Vec<Vec<u32>> = Vec::new();
    let mut i: usize = 0;
    while i < repos.len()
        invariant
            i <= repos.len(),
            forall|a: int| 0 <= a < repos.len() ==> (#[trigger] repos[a]).activity.wf(),
            hists.len() == i,
            forall|a: int| 0 <= a < i ==> (#[trigger] hists[a])@ == repos[a].activity.by_hour@,
        decreases repos.len() - i,
    {
        hists.push(copy_counts(&repos[i].activity.by_hour));
        i = i + 1;
    }
    assert(hists@.map_values(|h: Vec<u32>| h@) =~= hour_hists(repos@));
    let totals = slot_totals(&hists, 24);
    let mut bars: Vec<(String, u64)> = Vec::new();
    let mut h: usize = 0;
    while h < 24
        invariant
            h <= 24,
            totals.len() == 24,
            forall|k: int| 0 <= k < 24 ==> totals[k] == slot_total(hour_hists(repos@), k),
            bars.len() == h,
            forall|k: int| 0 <= k < h ==> (#[trigger] bars[k]).0@ == hour_label(k as nat) && bars[k].1 == totals[k],
        decreases 24 - h,
    {
        let mut v: Vec<char> = Vec::new();
        let digits = u64_chars(h as u64);
        push_pad_left(&mut v, &digits, 2, '0');
        let suffix = crate::text::str_chars(":00");
        crate::text::push_all(&mut v, &suffix);
        bars.push((string_from_chars(&v), totals[h]));
        h = h + 1;
    }
    BarChartData { title: string_of_str("Commits by Hour"), bars }
}

/// A copy of a list of counts.
fn copy_counts(v: &Vec<u32>) -> (r: Vec<u32>)
    ensures
        r@ == v@,
{
    let mut r: Vec<u32> = Vec::new();
    let mut i: usize = 0;
    while i < v.len()
        invariant
            i <= v.len(),
            r@ == v@.take(i as int),
        decreases v.len() - i,
    {
        r.push(v[i]);
        i = i + 1;
        assert(r@ =~= v@.take(i as int));
    }
    assert(v@.take(v.len() as int) =~= v@);
    r
}


// ---------------------------------------------------------------------------
// Per-date commits over several repositories
// ---------------------------------------------------------------------------

/// An activity row counts when there is no email filter, or when its lowercased email is one
/// of the filter's.
pub open spec fn act_allowed(a: ContributorActivityStats, allowed: Option<Seq<Seq<char>>>) -> bool {
    match allowed {
        Some(es) => es.contains(lowercase(a.email@)),
        None => true,
    }
}

/// The per-date counts of the allowed activity rows, in order.
pub open spec fn acts_entries(acts: Seq<ContributorActivityStats>, allowed: Option<Seq<Seq<char>>>) -> Seq<(String, u32)>
    decreases acts.len(),
{
    if acts.len() == 0 {
        Seq::empty()
    } else {
        acts_entries(acts.drop_last(), allowed) + if act_allowed(acts.last(), allowed) {
            acts.last().commits_by_date@
        } else {
            Seq::empty()
        }
    }
}

/// The per-date counts of the allowed contributors of every repository, in order.
pub open spec fn repos_entries(repos: Seq<RepositoryAnalysis>, allowed: Option<Seq<Seq<char>>>) -> Seq<(String, u32)>
    decreases repos.len(),
{
    if repos.len() == 0 {
        Seq::empty()
    } else {
        repos_entries(repos.drop_last(), allowed) + acts_entries(
            repos.last().contributions.activity_by_contributor@,
            allowed,
        )
    }
}

pub open spec fn opt_string_views(o: Option<Vec<String>>) -> Option<Seq<Seq<char>>> {
    match o {
        Some(v) => Some(string_views(v@)),
        None => None,
    }
}

pub(crate) fn push_entries(r: &mut Vec<(String, u32)>, v: &Vec<(String, u32)>)
    ensures
        final(r)@ == old(r)@ + v@,
{
    let mut k: usize = 0;
    while k < v.len()
        invariant
            k <= v.len(),
            r@ == old(r)@ + v@.take(k as int),
        decreases v.len() - k,
    {
        let e = (v[k].0.clone(), v[k].1);
        r.push(e);
        assert(v@.take(k + 1) =~= v@.take(k as int).push(v@[k as int]));
        k = k + 1;
    }
    assert(v@.take(v.len() as int) =~= v@);
}

fn push_acts_entries(r: &mut Vec<(String, u32)>, acts: &Vec<ContributorActivityStats>, allowed: &Option<Vec<String>>)
    ensures
        final(r)@ == old(r)@ + acts_entries(acts@, opt_string_views(*allowed)),
{
    let ghost al = opt_string_views(*allowed);
    let mut j: usize = 0;
    while j < acts.len()
        invariant
            j <= acts.len(),
            al == opt_string_views(*allowed),
            r@ == old(r)@ + acts_entries(acts@.take(j as int), al),
        decreases acts.len() - j,
    {
        assert(acts@.take(j + 1).drop_last() =~= acts@.take(j as int));
        assert(acts@.take(j + 1).last() == acts@[j as int]);
        let ok = match allowed {
            Some(es) => {
                let l = to_lowercase(acts[j].email.as_str());
                contains_string(es, &l)
            },
            None => true,
        };
        let ghost before = r@;
        if ok {
            push_entries(r, &acts[j].commits_by_date);
        }
        assert(r@ =~= old(r)@ + acts_entries(acts@.take(j + 1), al));
        j = j + 1;
    }
    assert(acts@.take(acts.len() as int) =~= acts@);
}

/// The per-date counts of the allowed contributors of every repository, in order.
fn collect_date_entries(repos: &Vec<RepositoryAnalysis>, allowed: &Option<Vec<String>>) -> (r: Vec<(String, u32)>)
    ensures
        r@ == repos_entries(repos@, opt_string_views(*allowed)),
{
    let ghost al = opt_string_views(*allowed);
    let mut r: Vec<(String, u32)> = Vec::new();
    let mut i: usize = 0;
    while i < repos.len()
        invariant
            i <= repos.len(),
            al == opt_string_views(*allowed),
            r@ == repos_entries(repos@.take(i as int), al),
        decreases repos.len() - i,
    {
        assert(repos@.take(i + 1).drop_last() =~= repos@.take(i as int));
        assert(repos@.take(i + 1).last() == repos@[i as int]);
        push_acts_entries(&mut r, &repos[i].contributions.activity_by_contributor, allowed);
        i = i + 1;
    }
    assert(repos@.take(repos.len() as int) =~= repos@);
    r
}

/// The entries dated on or after `cutoff` (in the order of strings).
pub open spec fn entries_since(v: Seq<(String, u32)>, cutoff: Seq<char>) -> Seq<(String, u32)>
    decreases v.len(),
{
    if v.len() == 0 {
        Seq::empty()
    } else {
        entries_since(v.drop_last(), cutoff) + if !seq_lt(v.last().0@, cutoff) {
            seq![v.last()]
        } else {
            Seq::empty()
        }
    }
}

fn keep_since(v: &Vec<(String, u32)>, cutoff: &str) -> (r: Vec<(String, u32)>)
    ensures
        r@ == entries_since(v@, cutoff@),
{
    let mut r: Vec<(String, u32)> = Vec::new();
    let mut i: usize = 0;
    while i < v.len()
        invariant
            i <= v.len(),
            r@ == entries_since(v@.take(i as int), cutoff@),
        decreases v.len() - i,
    {
        assert(v@.take(i + 1).drop_last() =~= v@.take(i as int));
        assert(v@.take(i + 1).last() == v@[i as int]);
        if !str_lt(v[i].0.as_str(), cutoff) {
            let e = (v[i].0.clone(), v[i].1);
            r.push(e);
        }
        assert(r@ =~= entries_since(v@.take(i + 1), cutoff@));
        i = i + 1;
    }
    assert(v@.take(v.len() as int) =~= v@);
    r
}

/// `t` is the commit timeline of `repos` from `cutoff` on: the per-date totals (saturating
/// at `u32::MAX`) of every contributor, in date order, between the first and last date.
pub open spec fn is_timeline_since(t: TimelineData, repos: Seq<RepositoryAnalysis>, cutoff: Seq<char>) -> bool {
    &&& t.title@ == "Commit Timeline (last 3 months)"@
    &&& is_date_totals(t.points@, entries_since(repos_entries(repos, None), cutoff))
    &&& t.points.len() == 0 ==> t.start_date@.len() == 0 && t.end_date@.len() == 0
    &&& t.points.len() > 0 ==> t.start_date@ == t.points[0].0@ && t.end_date@ == t.points[t.points.len() - 1].0@
}

/// The commit timeline of `repos` from the date `cutoff` on.
pub fn build_timeline_data_since(repos: &Vec<RepositoryAnalysis>, cutoff: &str) -> (r: TimelineData)
    ensures
        is_timeline_since(r, repos@, cutoff@),
{
    let all = collect_date_entries(repos, &None);
    let recent = keep_since(&all, cutoff);
    let points = date_totals(&recent);
    let n = points.len();
    let (start_date, end_date) = if n == 0 {
        (String::new(), String::new())
    } else {
        (points[0].0.clone(), points[n - 1].0.clone())
    };
    TimelineData { title: string_of_str("Commit Timeline (last 3 months)"), points, start_date, end_date }
}

/// The commit timeline of the last 90 days (from today's date, which the clock gives).
pub fn build_timeline_data(repos: &Vec<RepositoryAnalysis>) -> (r: TimelineData)
    ensures
        exists|secs: nat| is_timeline_since(r, repos@, spec_add_days(spec_format_unix_timestamp(secs), -90)),
{
    let today = today_ymd();
    let cutoff = add_days(today.as_str(), -90);
    build_timeline_data_since(repos, cutoff.as_str())
}

/// Per-date counts that fit the `u32` counters of a merged calendar.
pub open spec fn date_totals_fit(v: Seq<(String, u32)>) -> bool {
    forall|d: Seq<char>| #[trigger] entries_total(v, d) <= u32::MAX
}

/// Commit trends over the per-date counts of every contributor of every repository.
pub fn build_overall_trends(repos: &Vec<RepositoryAnalysis>, today: &str) -> (r: TrendsData)
    requires
        date_totals_fit(repos_entries(repos@, None)),
        trends_defined(repos_entries(repos@, None), today@),
    ensures
        is_trends(r, repos_entries(repos@, None), today@),
{
    let all = collect_date_entries(repos, &None);
    build_trends_data(&all, today)
}

// ---------------------------------------------------------------------------
// Totals over several repositories
// ---------------------------------------------------------------------------

/// The canonical key of every contributor of every repository, in order.
pub open spec fn contributor_keys(repos: Seq<RepositoryAnalysis>, users: Seq<UserView>) -> Seq<Seq<char>>
    decreases repos.len(),
{
    if repos.len() == 0 {
        Seq::empty()
    } else {
        contributor_keys(repos.drop_last(), users) + repos.last().contributions.contributors@.map_values(
            |c: crate::model::ContributorStats| spec_canonical_key(users, c.email@),
        )
    }
}

pub open spec fn repos_commits(repos: Seq<RepositoryAnalysis>) -> nat
    decreases repos.len(),
{
    if repos.len() == 0 {
        0
    } else {
        repos_commits(repos.drop_last()) + repos.last().contributions.total_commits as nat
    }
}

pub open spec fn repos_files(repos: Seq<RepositoryAnalysis>) -> nat
    decreases repos.len(),
{
    if repos.len() == 0 {
        0
    } else {
        repos_files(repos.drop_last()) + repos.last().size.files as nat
    }
}

/// Lines added plus deleted by a list of contributors.
pub open spec fn stats_lines(cs: Seq<crate::model::ContributorStats>) -> nat
    decreases cs.len(),
{
    if cs.len() == 0 {
        0
    } else {
        stats_lines(cs.drop_last()) + cs.last().lines_added as nat + cs.last().lines_deleted as nat
    }
}

pub open spec fn repos_lines(repos: Seq<RepositoryAnalysis>) -> nat
    decreases repos.len(),
{
    if repos.len() == 0 {
        0
    } else {
        repos_lines(repos.drop_last()) + stats_lines(repos.last().contributions.contributors@)
    }
}

/// The totals of a comparison fit in `u64`.
pub open spec fn summary_fits(repos: Seq<RepositoryAnalysis>) -> bool {
    repos_commits(repos) <= u64::MAX && repos_files(repos) <= u64::MAX && repos_lines(repos) <= u64::MAX
}

proof fn lemma_summary_prefix(repos: Seq<RepositoryAnalysis>, k: int)
    requires
        0 <= k <= repos.len(),
    ensures
        repos_commits(repos.take(k)) <= repos_commits(repos),
        repos_files(repos.take(k)) <= repos_files(repos),
        repos_lines(repos.take(k)) <= repos_lines(repos),
    decreases repos.len() - k,
{
    if k < repos.len() {
        lemma_summary_prefix(repos, k + 1);
        assert(repos.take(k + 1).drop_last() =~= repos.take(k));
    } else {
        assert(repos.take(k) =~= repos);
    }
}

proof fn lemma_stats_lines_prefix(cs: Seq<crate::model::ContributorStats>, k: int)
    requires
        0 <= k <= cs.len(),
    ensures
        stats_lines(cs.take(k)) <= stats_lines(cs),
    decreases cs.len() - k,
{
    if k < cs.len() {
        lemma_stats_lines_prefix(cs, k + 1);
        assert(cs.take(k + 1).drop_last() =~= cs.take(k));
    } else {
        assert(cs.take(k) =~= cs);
    }
}

/// The totals of several analyses: distinct contributors by canonical key, commits, lines
/// changed (added plus deleted) and files.
pub(crate) fn build_summary(results: &Vec<RepositoryAnalysis>, settings: &Settings) -> (r: ComparisonSummary)
    requires
        summary_fits(results@),
    ensures
        r.total_contributors == contributor_keys(results@, settings@).to_set().len(),
        r.total_commits == repos_commits(results@),
        r.total_lines_changed == repos_lines(results@),
        r.total_files == repos_files(results@),
{
    let ghost us = settings@;
    let mut keys: Vec<String> = Vec::new();
    let mut commits: u64 = 0;
    let mut lines: u64 = 0;
    let mut files: u64 = 0;
    let mut i: usize = 0;
    assert(string_views(keys@) =~= Seq::<Seq<char>>::empty());
    assert(contributor_keys(results@.take(0), us).to_set() =~= Set::<Seq<char>>::empty());
    while i < results.len()
        invariant
            i <= results.len(),
            us == settings@,
            summary_fits(results@),
            string_views(keys@).no_duplicates(),
            string_views(keys@).to_set() == contributor_keys(results@.take(i as int), us).to_set(),
            commits == repos_commits(results@.take(i as int)),
            files == repos_files(results@.take(i as int)),
            lines == repos_lines(results@.take(i as int)),
        decreases results.len() - i,
    {
        let ghost p = results@.take(i as int);
        assert(results@.take(i + 1).drop_last() =~= p);
        assert(results@.take(i + 1).last() == results@[i as int]);
        proof {
            lemma_summary_prefix(results@, i + 1);
        }
        let a = &results[i];
        commits = commits + a.contributions.total_commits;
        files = files + a.size.files;
        let cs = &a.contributions.contributors;
        let ghost ck = cs@.map_values(|c: crate::model::ContributorStats| spec_canonical_key(us, c.email@));
        let mut j: usize = 0;
        while j < cs.len()
            invariant
                j <= cs.len(),
                i < results.len(),
                cs == &results@[i as int].contributions.contributors,
                us == settings@,
                ck == cs@.map_values(|c: crate::model::ContributorStats| spec_canonical_key(us, c.email@)),
                string_views(keys@).no_duplicates(),
                string_views(keys@).to_set() == (contributor_keys(p, us) + ck.take(j as int)).to_set(),
                lines == repos_lines(p) + stats_lines(cs@.take(j as int)),
                repos_lines(p) + stats_lines(cs@) <= u64::MAX,
            decreases cs.len() - j,
        {
            assert(cs@.take(j + 1).drop_last() =~= cs@.take(j as int));
            proof {
                lemma_stats_lines_prefix(cs@, j + 1);
            }
            let k = settings.canonical_key(cs[j].email.as_str());
            insert_string(&mut keys, k);
            assert((contributor_keys(p, us) + ck.take(j + 1)) =~= (contributor_keys(p, us) + ck.take(j as int)).push(ck[j as int]));
            proof {
                (contributor_keys(p, us) + ck.take(j as int)).lemma_push_to_set_commute(ck[j as int]);
            }
            lines = lines + cs[j].lines_added + cs[j].lines_deleted;
            j = j + 1;
        }
        assert(ck.take(cs.len() as int) =~= ck);
        assert(cs@.take(cs.len() as int) =~= cs@);
        assert(contributor_keys(results@.take(i + 1), us) =~= contributor_keys(p, us) + ck);
        i = i + 1;
    }
    assert(results@.take(results.len() as int) =~= results@);
    proof {
        string_views(keys@).unique_seq_to_set();
    }
    ComparisonSummary {
        total_contributors: keys.len() as u64,
        total_commits: commits,
        total_lines_changed: lines,
        total_files: files,
    }
}

/// A comparison report over several analyses: their totals and the commit trends of today's
/// date (which the clock gives).
pub fn build_comparison_report(results: Vec<RepositoryAnalysis>, failures: Vec<PartialFailure>, settings: &Settings) -> (r: ComparisonReport)
    requires
        summary_fits(results@),
        date_totals_fit(repos_entries(results@, None)),
        forall|secs: nat| #[trigger] trends_defined(repos_entries(results@, None), spec_format_unix_timestamp(secs)),
    ensures
        r.repositories@ == results@,
        r.failures@ == failures@,
        r.summary.total_contributors == contributor_keys(results@, settings@).to_set().len(),
        r.summary.total_commits == repos_commits(results@),
        r.summary.total_lines_changed == repos_lines(results@),
        r.summary.total_files == repos_files(results@),
        exists|secs: nat| r.trends.reference_date@ == #[trigger] spec_format_unix_timestamp(secs),
{
    let summary = build_summary(&results, settings);
    let today = today_ymd();
    let trends = build_overall_trends(&results, today.as_str());
    ComparisonReport { repositories: results, summary, failures, trends }
}

// ---------------------------------------------------------------------------
// The activity heatmap
// ---------------------------------------------------------------------------

/// The day `k` days after `start`, stepping one day at a time.
pub open spec fn day_seq(start: Seq<char>, k: nat) -> Seq<char>
    decreases k,
{
    if k == 0 {
        start
    } else {
        spec_add_days(day_seq(start, (k - 1) as nat), 1)
    }
}

/// The day `k` weeks after `start`, stepping one week at a time.
pub open spec fn week_seq(start: Seq<char>, k: nat) -> Seq<char>
    decreases k,
{
    if k == 0 {
        start
    } else {
        spec_add_days(week_seq(start, (k - 1) as nat), 7)
    }
}

/// One of the days `0..=k` after `start` comes after `end` (in the order of strings).
pub open spec fn past_end(start: Seq<char>, end: Seq<char>, k: nat) -> bool
    decreases k,
{
    seq_lt(end, day_seq(start, k)) || (k > 0 && past_end(start, end, (k - 1) as nat))
}

/// The first day of the heatmap: 52 weeks before `reference`, moved back to a Monday.
pub open spec fn heatmap_start(reference: Seq<char>) -> Seq<char> {
    let raw = spec_add_days(reference, -364);
    let p = parsed_or_epoch(raw);
    let dow = spec_day_of_week(p.0 as int, p.1 as int, p.2);
    if dow == 0 {
        raw
    } else {
        spec_add_days(raw, -dow)
    }
}

/// The number of weeks from the first day to `reference`, at most 53.
pub open spec fn heatmap_week_count(reference: Seq<char>) -> usize {
    let s = parsed_or_epoch(heatmap_start(reference));
    let e = parsed_or_epoch(reference);
    let total = spec_to_jdn(e.0 as int, e.1 as int, e.2 as int) - spec_to_jdn(s.0 as int, s.1 as int, s.2 as int) + 1;
    let t = total as usize;
    let w = t / 7 + if t % 7 > 0 { 1usize } else { 0usize };
    if w > 53 {
        53
    } else {
        w as usize
    }
}

/// The count of the `k`-th day of the heatmap: its commits, or 0 once a day after `end` was
/// reached.
pub open spec fn heatmap_cell(entries: Seq<(String, u32)>, start: Seq<char>, end: Seq<char>, k: nat) -> nat {
    if past_end(start, end, k) {
        0
    } else {
        entries_total(entries, day_seq(start, k))
    }
}

/// The month labels of the first `n` week columns: a column is labelled where the month of
/// its first day differs from the last label's; with that last month.
pub open spec fn month_labels_upto(start: Seq<char>, n: nat) -> (Seq<(usize, Seq<char>)>, u32)
    decreases n,
{
    if n == 0 {
        (Seq::empty(), 0)
    } else {
        let prev = month_labels_upto(start, (n - 1) as nat);
        match spec_parse_ymd(week_seq(start, (n - 1) as nat)) {
            Some(t) => if t.1 != prev.1 {
                (prev.0.push(((n - 1) as usize, spec_month_abbrev(t.1))), t.1)
            } else {
                prev
            },
            None => prev,
        }
    }
}

pub open spec fn label_views(v: Seq<(usize, String)>) -> Seq<(usize, Seq<char>)> {
    v.map_values(|l: (usize, String)| (l.0, l.1@))
}

/// The emails a heatmap is restricted to: those of the key's user, if a key is given.
pub open spec fn heatmap_filter(users: Seq<UserView>, filter_key: Option<&str>) -> Option<Seq<Seq<char>>> {
    match filter_key {
        Some(k) => Some(spec_emails_for_key(users, k@)),
        None => None,
    }
}

/// The inputs the heatmap can be built for: the day 52 weeks before `reference` has a day of
/// week within `i32` arithmetic, and no day's commits exceed `u32::MAX`.
pub open spec fn heatmap_defined(entries: Seq<(String, u32)>, reference: Seq<char>) -> bool {
    let p = parsed_or_epoch(spec_add_days(reference, -364));
    &&& dow_in_range(p.0 as int, p.1 as int, p.2)
    &&& date_totals_fit(entries)
}

/// `h` is the heatmap of the per-date counts `entries` for the year ending on `reference`.
pub open spec fn is_heatmap(h: HeatmapData, entries: Seq<(String, u32)>, reference: Seq<char>) -> bool {
    let start = heatmap_start(reference);
    let wc = heatmap_week_count(reference);
    &&& h.start_date@ == start
    &&& h.end_date@ == reference
    &&& h.week_count == wc
    &&& h.grid.len() == 7
    &&& forall|r: int| 0 <= r < 7 ==> (#[trigger] h.grid[r]).len() == 53
    &&& forall|r: int, c: int| 0 <= r < 7 && 0 <= c < 53 ==> #[trigger] h.grid[r][c] == if c < wc {
        heatmap_cell(entries, start, reference, (7 * c + r) as nat)
    } else {
        0
    }
    &&& forall|r: int, c: int| 0 <= r < 7 && 0 <= c < 53 ==> #[trigger] h.grid[r][c] <= h.max_count
    &&& h.max_count == 0 || exists|r: int, c: int| 0 <= r < 7 && 0 <= c < 53 && #[trigger] h.grid[r][c] == h.max_count
    &&& label_views(h.month_labels@) == month_labels_upto(start, wc as nat).0
}

/// The commits of date `d` in the per-date totals `m` of `v`.
fn lookup_total(m: &Vec<(String, u32)>, d: &String, Ghost(v): Ghost<Seq<(String, u32)>>) -> (r: u32)
    requires
        is_date_totals(m@, v),
        date_totals_fit(v),
    ensures
        r == entries_total(v, d@),
{
    let mut i: usize = 0;
    while i < m.len()
        invariant
            i <= m.len(),
            is_date_totals(m@, v),
            date_totals_fit(v),
            forall|j: int| 0 <= j < i ==> m@[j].0@ != d@,
        decreases m.len() - i,
    {
        if m[i].0 == *d {
            assert(m@[i as int].0@ == d@);
            assert(entries_total(v, d@) <= u32::MAX);
            assert(m@[i as int].1 == crate::tally::sat_u32(entries_total(v, m@[i as int].0@)));
            return m[i].1;
        }
        i = i + 1;
    }
    proof {
        assert(!entry_keys(m@).contains(d@)) by {
            if entry_keys(m@).contains(d@) {
                let k = choose|k: int| 0 <= k < entry_keys(m@).len() && entry_keys(m@)[k] == d@;
                assert(m@[k].0@ == d@);
            }
        }
        assert(!entry_keys(m@).to_set().contains(d@));
        assert(!entry_keys(v).contains(d@)) by {
            if entry_keys(v).contains(d@) {
                assert(entry_keys(v).to_set().contains(d@));
            }
        }
        lemma_absent_total(v, d@);
    }
    0
}

proof fn lemma_past_end_grows(start: Seq<char>, end: Seq<char>, j: nat, k: nat)
    requires
        j <= k,
        past_end(start, end, j),
    ensures
        past_end(start, end, k),
    decreases k - j,
{
    if j < k {
        lemma_past_end_grows(start, end, j, (k - 1) as nat);
    }
}

/// The first day of the heatmap for `reference`.
fn heatmap_start_exec(reference: &str) -> (r: String)
    requires
        ({
            let p = parsed_or_epoch(spec_add_days(reference@, -364));
            dow_in_range(p.0 as int, p.1 as int, p.2)
        }),
    ensures
        r@ == heatmap_start(reference@),
{
    let raw = add_days(reference, -364);
    let (sy, sm, sd) = match parse_ymd(raw.as_str()) {
        Some(t) => t,
        None => (1970, 1, 1),
    };
    let dow = day_of_week(sy, sm, sd);
    if dow == 0 {
        raw
    } else {
        add_days(raw.as_str(), -(dow as i32))
    }
}

/// The number of week columns from `start` to `reference`.
fn heatmap_week_count_exec(start: &str, reference: &str) -> (r: usize)
    requires
        start@ == heatmap_start(reference@),
    ensures
        r == heatmap_week_count(reference@),
{
    let (sy, sm, sd) = match parse_ymd(start) {
        Some(t) => t,
        None => (1970, 1, 1),
    };
    let (ey, em, ed) = match parse_ymd(reference) {
        Some(t) => t,
        None => (1970, 1, 1),
    };
    proof {
        crate::date_util::lemma_to_jdn_bounds(sy, sm, sd);
        crate::date_util::lemma_to_jdn_bounds(ey, em, ed);
    }
    let s = to_jdn(sy, sm, sd);
    let e = to_jdn(ey, em, ed);
    let total: i64 = e - s + 1;
    let t = total as usize;
    let w = t / 7 + if t % 7 > 0 { 1usize } else { 0usize };
    if w > 53 {
        53
    } else {
        w
    }
}

/// A year of daily commits as weekday rows (Monday first) and week columns, ending on
/// `reference_date` and starting on the Monday 52 weeks before it, with month labels; only
/// the contributors of `filter_key`'s emails count when a key is given.
pub fn build_heatmap_data(
    repos: &Vec<RepositoryAnalysis>,
    filter_key: Option<&str>,
    reference_date: &str,
    settings: &Settings,
) -> (r: HeatmapData)
    requires
        heatmap_defined(repos_entries(repos@, heatmap_filter(settings@, filter_key)), reference_date@),
    ensures
        is_heatmap(r, repos_entries(repos@, heatmap_filter(settings@, filter_key)), reference_date@),
{
    let allowed: Option<Vec<String>> = match filter_key {
        Some(k) => Some(settings.emails_for_key(k)),
        None => None,
    };
    let entries = collect_date_entries(repos, &allowed);
    let ghost ev = entries@;
    assert(ev == repos_entries(repos@, heatmap_filter(settings@, filter_key)));
    let totals = date_totals(&entries);
    let end_date = string_of_str(reference_date);
    let start_date = heatmap_start_exec(reference_date);
    let week_count = heatmap_week_count_exec(start_date.as_str(), reference_date);
    let ghost start = start_date@;
    let ghost end = reference_date@;
    let mut grid = zero_grid(7, 53);
    let mut max_count: u32 = 0;
    let mut current = start_date.clone();
    let mut done = false;
    let mut col: usize = 0;
    while col < week_count
        invariant
            col <= week_count <= 53,
            is_date_totals(totals@, ev),
            date_totals_fit(ev),
            start == start_date@,
            end == reference_date@,
            grid.len() == 7,
            forall|r: int| 0 <= r < 7 ==> (#[trigger] grid[r]).len() == 53,
            forall|r: int, c: int| 0 <= r < 7 && 0 <= c < 53 ==> #[trigger] grid[r][c] == if c < col {
                heatmap_cell(ev, start, end, (7 * c + r) as nat)
            } else {
                0
            },
            forall|r: int, c: int| 0 <= r < 7 && 0 <= c < 53 ==> #[trigger] grid[r][c] <= max_count,
            max_count == 0 || exists|r: int, c: int| 0 <= r < 7 && 0 <= c < 53 && #[trigger] grid[r][c] == max_count,
            !done ==> current@ == day_seq(start, (7 * col) as nat) && (col == 0 || !past_end(start, end, (7 * col - 1) as nat)),
            done ==> col > 0 && past_end(start, end, (7 * col - 1) as nat),
        decreases week_count - col,
    {
        let mut row: usize = 0;
        while row < 7
            invariant
                row <= 7,
                col < week_count <= 53,
                is_date_totals(totals@, ev),
                date_totals_fit(ev),
                start == start_date@,
                end == reference_date@,
                grid.len() == 7,
                forall|r: int| 0 <= r < 7 ==> (#[trigger] grid[r]).len() == 53,
                forall|r: int, c: int| 0 <= r < 7 && 0 <= c < 53 ==> #[trigger] grid[r][c] == if c < col || (c == col && r < row) {
                    heatmap_cell(ev, start, end, (7 * c + r) as nat)
                } else {
                    0
                },
                forall|r: int, c: int| 0 <= r < 7 && 0 <= c < 53 ==> #[trigger] grid[r][c] <= max_count,
                max_count == 0 || exists|r: int, c: int| 0 <= r < 7 && 0 <= c < 53 && #[trigger] grid[r][c] == max_count,
                !done ==> current@ == day_seq(start, (7 * col + row) as nat) && (7 * col + row == 0 || !past_end(start, end, (7 * col + row - 1) as nat)),
                done ==> 7 * col + row > 0 && past_end(start, end, (7 * col + row - 1) as nat),
            decreases 7 - row,
        {
            let ghost k = (7 * col + row) as nat;
            let ghost was_done = done;
            if !done && str_lt(reference_date, current.as_str()) {
                done = true;
            }
            if done {
                proof {
                    if was_done {
                        lemma_past_end_grows(start, end, (k - 1) as nat, k);
                    }
                    assert(past_end(start, end, k));
                }
            } else {
                assert(!past_end(start, end, k));
                let count = lookup_total(&totals, &current, Ghost(ev));
                let ghost g0 = grid@;
                grid[row].set(col, count);
                assert forall|r: int, c: int| 0 <= r < 7 && 0 <= c < 53 && !(r == row && c == col) implies #[trigger] grid[r][c] == g0[r][c] by {
                    if r != row {
                        assert(grid[r] == g0[r]);
                    }
                }
                let ghost old_max = max_count;
                assert(g0[row as int][col as int] == 0);
                if count > max_count {
                    max_count = count;
                }
                assert(grid[row as int][col as int] == count);
                proof {
                    if max_count > 0 {
                        if max_count != count {
                            let (r0, c0) = choose|r0: int, c0: int| 0 <= r0 < 7 && 0 <= c0 < 53 && #[trigger] g0[r0][c0] == old_max;
                            assert(grid[r0][c0] == g0[r0][c0]);
                        }
                    }
                }
                current = add_days(current.as_str(), 1);
            }
            row = row + 1;
        }
        col = col + 1;
    }
    let mut labels: Vec<(usize, String)> = Vec::new();
    let mut last_month: u32 = 0;
    let mut cursor = start_date.clone();
    let mut c: usize = 0;
    while c < week_count
        invariant
            c <= week_count,
            start == start_date@,
            cursor@ == week_seq(start, c as nat),
            label_views(labels@) == month_labels_upto(start, c as nat).0,
            last_month == month_labels_upto(start, c as nat).1,
        decreases week_count - c,
    {
        match parse_ymd(cursor.as_str()) {
            Some((_, m, _)) => {
                if m != last_month {
                    let ghost before = labels@;
                    labels.push((c, string_of_str(month_abbrev(m))));
                    assert(label_views(labels@) =~= label_views(before).push((c, spec_month_abbrev(m))));
                    last_month = m;
                }
            },
            None => {},
        }
        cursor = add_days(cursor.as_str(), 7);
        c = c + 1;
    }
    let h = HeatmapData { start_date, end_date, grid, week_count, max_count, month_labels: labels };
    assert(h.start_date@ == heatmap_start(reference_date@));
    assert(h.week_count == heatmap_week_count(reference_date@));
    assert(forall|r: int, c: int| 0 <= r < 7 && 0 <= c < 53 ==> #[trigger] h.grid[r][c] <= h.max_count);
    assert(h.grid.len() == 7);
    assert(forall|r: int| 0 <= r < 7 ==> (#[trigger] h.grid[r]).len() == 53);
    assert(h.max_count == 0 || exists|r: int, c: int| 0 <= r < 7 && 0 <= c < 53 && #[trigger] h.grid[r][c] == h.max_count);
    assert(label_views(h.month_labels@) == month_labels_upto(start, week_count as nat).0);
    assert(forall|r: int, c: int| 0 <= r < 7 && 0 <= c < 53 ==> #[trigger] h.grid[r][c] == if c < week_count {
        heatmap_cell(ev, start, end, (7 * c + r) as nat)
    } else {
        0
    });
    h
}

// ---------------------------------------------------------------------------
// Contributors merged by canonical key
// ---------------------------------------------------------------------------

/// One contributor row (name, commits, lines added, lines deleted, files touched) or one
/// activity row (nothing), under the canonical key of its email.
pub type MergeEvent = (String, Option<(String, u64, u64, u64, u64)>);

/// The events of the repositories in order: per repository its contributor rows, then its
/// activity rows.
pub open spec fn merge_events(repos: Seq<RepositoryAnalysis>, users: Seq<UserView>) -> Seq<(Seq<char>, Option<(Seq<char>, u64, u64, u64, u64)>)>
    decreases repos.len(),
{
    if repos.len() == 0 {
        Seq::empty()
    } else {
        let r = repos.last();
        merge_events(repos.drop_last(), users) + r.contributions.contributors@.map_values(
            |c: crate::model::ContributorStats| (
                spec_canonical_key(users, c.email@),
                Some((c.name@, c.commits, c.lines_added, c.lines_deleted, c.files_touched)),
            ),
        ) + r.contributions.activity_by_contributor@.map_values(
            |a: ContributorActivityStats| (spec_canonical_key(users, a.email@), None::<(Seq<char>, u64, u64, u64, u64)>),
        )
    }
}

pub open spec fn event_view(e: MergeEvent) -> (Seq<char>, Option<(Seq<char>, u64, u64, u64, u64)>) {
    (e.0@, match e.1 {
        Some(c) => Some((c.0@, c.1, c.2, c.3, c.4)),
        None => None,
    })
}

pub open spec fn event_views(v: Seq<MergeEvent>) -> Seq<(Seq<char>, Option<(Seq<char>, u64, u64, u64, u64)>)> {
    v.map_values(|e: MergeEvent| event_view(e))
}

pub open spec fn event_keys(evs: Seq<(Seq<char>, Option<(Seq<char>, u64, u64, u64, u64)>)>) -> Seq<Seq<char>> {
    evs.map_values(|e: (Seq<char>, Option<(Seq<char>, u64, u64, u64, u64)>)| e.0)
}

/// Field `f` of a contributor row: 1 commits, 2 lines added, 3 lines deleted, 4 files.
pub open spec fn event_field(c: (Seq<char>, u64, u64, u64, u64), f: int) -> nat {
    if f == 1 {
        c.1 as nat
    } else if f == 2 {
        c.2 as nat
    } else if f == 3 {
        c.3 as nat
    } else {
        c.4 as nat
    }
}

/// The sum of field `f` over the contributor rows of `key`.
pub open spec fn key_sum(evs: Seq<(Seq<char>, Option<(Seq<char>, u64, u64, u64, u64)>)>, key: Seq<char>, f: int) -> nat
    decreases evs.len(),
{
    if evs.len() == 0 {
        0
    } else {
        key_sum(evs.drop_last(), key, f) + match evs.last().1 {
            Some(c) => if evs.last().0 == key {
                event_field(c, f)
            } else {
                0
            },
            None => 0,
        }
    }
}

/// The first non-empty name among the contributor rows of `key` (empty if none).
pub open spec fn key_name(evs: Seq<(Seq<char>, Option<(Seq<char>, u64, u64, u64, u64)>)>, key: Seq<char>) -> Seq<char>
    decreases evs.len(),
{
    if evs.len() == 0 {
        Seq::empty()
    } else {
        let p = key_name(evs.drop_last(), key);
        if p.len() > 0 {
            p
        } else {
            match evs.last().1 {
                Some(c) => if evs.last().0 == key {
                    c.0
                } else {
                    p
                },
                None => p,
            }
        }
    }
}

/// The per-key sums fit in `u64`.
pub open spec fn merge_fits(evs: Seq<(Seq<char>, Option<(Seq<char>, u64, u64, u64, u64)>)>) -> bool {
    forall|key: Seq<char>, f: int| 1 <= f <= 4 ==> #[trigger] key_sum(evs, key, f) <= u64::MAX
}

/// One merged contributor: key, name, commits, lines added, lines deleted, files touched.
pub type MergedRow = (String, String, u64, u64, u64, u64);

pub open spec fn merged_keys(v: Seq<MergedRow>) -> Seq<Seq<char>> {
    v.map_values(|m: MergedRow| m.0@)
}

/// Merged rows are ordered by commits, most first, then by key.
pub open spec fn merged_before(a: MergedRow, b: MergedRow) -> bool {
    a.2 > b.2 || (a.2 == b.2 && seq_lt(a.0@, b.0@))
}

/// `m` holds the contributors of the events merged by key: each key once, with its sums
/// and first non-empty name.
pub open spec fn merges(m: Seq<MergedRow>, evs: Seq<(Seq<char>, Option<(Seq<char>, u64, u64, u64, u64)>)>) -> bool {
    &&& merged_keys(m).no_duplicates()
    &&& merged_keys(m).to_set() == event_keys(evs).to_set()
    &&& forall|i: int| 0 <= i < m.len() ==> {
        let k = (#[trigger] m[i]).0@;
        &&& m[i].1@ == key_name(evs, k)
        &&& m[i].2 == key_sum(evs, k, 1)
        &&& m[i].3 == key_sum(evs, k, 2)
        &&& m[i].4 == key_sum(evs, k, 3)
        &&& m[i].5 == key_sum(evs, k, 4)
    }
}

/// The events of the repositories, keyed by the canonical key of each email.
pub(crate) fn collect_events(repos: &Vec<RepositoryAnalysis>, settings: &Settings) -> (r: Vec<MergeEvent>)
    ensures
        event_views(r@) == merge_events(repos@, settings@),
{
    let ghost us = settings@;
    let mut r: Vec<MergeEvent> = Vec::new();
    let mut i: usize = 0;
    while i < repos.len()
        invariant
            i <= repos.len(),
            us == settings@,
            event_views(r@) == merge_events(repos@.take(i as int), us),
        decreases repos.len() - i,
    {
        assert(repos@.take(i + 1).drop_last() =~= repos@.take(i as int));
        assert(repos@.take(i + 1).last() == repos@[i as int]);
        let ghost before = event_views(r@);
        let cs = &repos[i].contributions.contributors;
        let mut j: usize = 0;
        while j < cs.len()
            invariant
                j <= cs.len(),
                us == settings@,
                event_views(r@) == before + cs@.take(j as int).map_values(
                    |c: crate::model::ContributorStats| (
                        spec_canonical_key(us, c.email@),
                        Some((c.name@, c.commits, c.lines_added, c.lines_deleted, c.files_touched)),
                    ),
                ),
            decreases cs.len() - j,
        {
            let k = settings.canonical_key(cs[j].email.as_str());
            let c = &cs[j];
            let ghost r0 = r@;
            r.push((k, Some((c.name.clone(), c.commits, c.lines_added, c.lines_deleted, c.files_touched))));
            assert(event_views(r@) =~= event_views(r0).push(event_view(r@[r0.len() as int])));
            assert(cs@.take(j + 1) =~= cs@.take(j as int).push(cs@[j as int]));
            assert(event_views(r@) =~= before + cs@.take(j + 1).map_values(
                |c: crate::model::ContributorStats| (
                    spec_canonical_key(us, c.email@),
                    Some((c.name@, c.commits, c.lines_added, c.lines_deleted, c.files_touched)),
                ),
            ));
            j = j + 1;
        }
        assert(cs@.take(cs.len() as int) =~= cs@);
        let ghost mid = event_views(r@);
        let acts = &repos[i].contributions.activity_by_contributor;
        let mut j: usize = 0;
        while j < acts.len()
            invariant
                j <= acts.len(),
                us == settings@,
                event_views(r@) == mid + acts@.take(j as int).map_values(
                    |a: ContributorActivityStats| (spec_canonical_key(us, a.email@), None::<(Seq<char>, u64, u64, u64, u64)>),
                ),
            decreases acts.len() - j,
        {
            let k = settings.canonical_key(acts[j].email.as_str());
            let ghost r0 = r@;
            r.push((k, None));
            assert(event_views(r@) =~= event_views(r0).push(event_view(r@[r0.len() as int])));
            assert(acts@.take(j + 1) =~= acts@.take(j as int).push(acts@[j as int]));
            assert(event_views(r@) =~= mid + acts@.take(j + 1).map_values(
                |a: ContributorActivityStats| (spec_canonical_key(us, a.email@), None::<(Seq<char>, u64, u64, u64, u64)>),
            ));
            j = j + 1;
        }
        assert(acts@.take(acts.len() as int) =~= acts@);
        assert(merge_events(repos@.take(i + 1), us) =~= event_views(r@));
        i = i + 1;
    }
    assert(repos@.take(repos.len() as int) =~= repos@);
    r
}

proof fn lemma_key_sum_prefix(evs: Seq<(Seq<char>, Option<(Seq<char>, u64, u64, u64, u64)>)>, k: int, key: Seq<char>, f: int)
    requires
        0 <= k <= evs.len(),
    ensures
        key_sum(evs.take(k), key, f) <= key_sum(evs, key, f),
    decreases evs.len() - k,
{
    if k < evs.len() {
        lemma_key_sum_prefix(evs, k + 1, key, f);
        assert(evs.take(k + 1).drop_last() =~= evs.take(k));
    } else {
        assert(evs.take(k) =~= evs);
    }
}

/// The events merged by key, in order of first occurrence.
fn merge_rows(events: &Vec<MergeEvent>) -> (m: Vec<MergedRow>)
    requires
        merge_fits(event_views(events@)),
    ensures
        merges(m@, event_views(events@)),
{
    let ghost evs = event_views(events@);
    let mut m: Vec<MergedRow> = Vec::new();
    let mut i: usize = 0;
    assert(merged_keys(m@).to_set() =~= event_keys(evs.take(0)).to_set());
    while i < events.len()
        invariant
            i <= events.len(),
            evs == event_views(events@),
            merge_fits(evs),
            merges(m@, evs.take(i as int)),
        decreases events.len() - i,
    {
        let ghost p = evs.take(i as int);
        let ghost q = evs.take(i + 1);
        let ghost e = evs[i as int];
        assert(q =~= p.push(e));
        assert(q.drop_last() =~= p);
        assert(event_keys(q) =~= event_keys(p).push(e.0));
        let key = &events[i].0;
        let mut j: usize = 0;
        while j < m.len()
            invariant
                j <= m.len(),
                forall|t: int| 0 <= t < j ==> m@[t].0@ != key@,
            ensures
                j <= m.len(),
                forall|t: int| 0 <= t < j ==> m@[t].0@ != key@,
                j < m.len() ==> m@[j as int].0@ == key@,
            decreases m.len() - j,
        {
            if m[j].0 == *key {
                break;
            }
            j = j + 1;
        }
        let ghost before = m@;
        if j == m.len() {
            assert(!merged_keys(before).contains(key@)) by {
                if merged_keys(before).contains(key@) {
                    let t = choose|t: int| 0 <= t < merged_keys(before).len() && merged_keys(before)[t] == key@;
                    assert(before[t].0@ == key@);
                }
            }
            assert(!event_keys(p).contains(key@)) by {
                if event_keys(p).contains(key@) {
                    assert(event_keys(p).to_set().contains(key@));
                    assert(merged_keys(before).to_set().contains(key@));
                }
            }
            proof {
                lemma_absent_key(p, key@);
                assert(key_name(p, key@) =~= Seq::<char>::empty());
            }
            m.push((key.clone(), String::new(), 0, 0, 0, 0));
            proof {
                assert(merged_keys(m@) =~= merged_keys(before).push(key@));
                merged_keys(before).lemma_push_to_set_commute(key@);
                assert(merged_keys(m@).no_duplicates()) by {
                    assert forall|a: int, b: int| 0 <= a < b < merged_keys(m@).len() implies merged_keys(m@)[a] != merged_keys(m@)[b] by {
                        if b == before.len() {
                            assert(merged_keys(before).contains(merged_keys(before)[a]));
                        }
                    }
                }
            }
        }
        let ghost mid = m@;
        assert(mid[j as int].0@ == key@);
        assert(mid[j as int].1@ == key_name(p, key@) && mid[j as int].2 == key_sum(p, key@, 1) && mid[j as int].3 == key_sum(p, key@, 2)
            && mid[j as int].4 == key_sum(p, key@, 3) && mid[j as int].5 == key_sum(p, key@, 4));
        assert(forall|t: int| 0 <= t < mid.len() && t != j ==> mid[t] == before[t]);
        proof {
            lemma_key_sum_prefix(evs, i + 1, key@, 1);
            lemma_key_sum_prefix(evs, i + 1, key@, 2);
            lemma_key_sum_prefix(evs, i + 1, key@, 3);
            lemma_key_sum_prefix(evs, i + 1, key@, 4);
            assert(key_sum(evs, key@, 1) <= u64::MAX);
            assert(key_sum(evs, key@, 2) <= u64::MAX);
            assert(key_sum(evs, key@, 3) <= u64::MAX);
            assert(key_sum(evs, key@, 4) <= u64::MAX);
        }
        match &events[i].1 {
            Some(c) => {
                let row = &m[j];
                let name = if row.1.as_str().is_empty() { c.0.clone() } else { row.1.clone() };
                let new_row = (row.0.clone(), name, row.2 + c.1, row.3 + c.2, row.4 + c.3, row.5 + c.4);
                m.set(j, new_row);
            },
            None => {},
        }
        proof {
            assert(merged_keys(m@) =~= merged_keys(mid));
            assert(event_keys(q).to_set() =~= event_keys(p).to_set().insert(key@)) by {
                event_keys(p).lemma_push_to_set_commute(key@);
            }
            assert(merged_keys(mid).to_set().contains(key@)) by {
                assert(merged_keys(mid)[j as int] == key@);
            }
            assert(merged_keys(m@).to_set() =~= event_keys(q).to_set());
            assert forall|t: int| 0 <= t < m@.len() implies {
                let k = (#[trigger] m@[t]).0@;
                &&& m@[t].1@ == key_name(q, k)
                &&& m@[t].2 == key_sum(q, k, 1)
                &&& m@[t].3 == key_sum(q, k, 2)
                &&& m@[t].4 == key_sum(q, k, 3)
                &&& m@[t].5 == key_sum(q, k, 4)
            } by {
                if t != j {
                    assert(m@[t] == before[t]);
                    assert(merged_keys(mid)[t] != merged_keys(mid)[j as int]);
                }
            }
        }
        i = i + 1;
    }
    assert(evs.take(events.len() as int) =~= evs);
    m
}

/// A key that no event names has no sums and no name.
proof fn lemma_absent_key(evs: Seq<(Seq<char>, Option<(Seq<char>, u64, u64, u64, u64)>)>, key: Seq<char>)
    requires
        !event_keys(evs).contains(key),
    ensures
        key_name(evs, key).len() == 0,
        forall|f: int| #[trigger] key_sum(evs, key, f) == 0,
    decreases evs.len(),
{
    if evs.len() > 0 {
        let p = evs.drop_last();
        assert(event_keys(p) =~= event_keys(evs).drop_last());
        assert(event_keys(evs)[evs.len() - 1] == evs.last().0);
        assert(!event_keys(p).contains(key)) by {
            if event_keys(p).contains(key) {
                let k = choose|k: int| 0 <= k < event_keys(p).len() && event_keys(p)[k] == key;
                assert(event_keys(evs)[k] == key);
            }
        }
        lemma_absent_key(p, key);
        assert forall|f: int| #[trigger] key_sum(evs, key, f) == 0 by {
            assert(key_sum(p, key, f) == 0);
        }
    }
}

/// `a` goes before `b`: more commits, or as many and a smaller key.
fn merged_goes_before(a: &MergedRow, b: &MergedRow) -> (r: bool)
    ensures
        r == merged_before(*a, *b),
{
    a.2 > b.2 || (a.2 == b.2 && str_lt(a.0.as_str(), b.0.as_str()))
}

proof fn lemma_merged_order(a: MergedRow, b: MergedRow, c: MergedRow)
    ensures
        merged_before(a, b) && merged_before(b, c) ==> merged_before(a, c),
        a.0@ != b.0@ ==> merged_before(a, b) || merged_before(b, a),
        merged_before(a, b) ==> !merged_before(b, a),
{
    if merged_before(a, b) && merged_before(b, c) {
        if seq_lt(a.0@, b.0@) && seq_lt(b.0@, c.0@) {
            crate::text::lemma_seq_lt_transitive(a.0@, b.0@, c.0@);
        }
    }
    crate::text::lemma_seq_lt_total(a.0@, b.0@);
    if seq_lt(a.0@, b.0@) {
        crate::text::lemma_seq_lt_asymmetric(a.0@, b.0@);
    }
}

/// Merged rows sorted by commits, most first, then by key.
pub(crate) fn sort_merged(v: Vec<MergedRow>) -> (out: Vec<MergedRow>)
    requires
        merged_keys(v@).no_duplicates(),
    ensures
        out@.to_multiset() == v@.to_multiset(),
        merged_keys(out@).no_duplicates(),
        merged_keys(out@).to_set() == merged_keys(v@).to_set(),
        forall|i: int, j: int| 0 <= i < j < out.len() ==> merged_before(out[i], out[j]),
{
    broadcast use vstd::seq_lib::to_multiset_remove, vstd::seq_lib::to_multiset_insert;
    let ghost all = merged_keys(v@).to_set();
    let mut rest = v;
    let mut out: Vec<MergedRow> = Vec::new();
    assert(out@.to_multiset().add(rest@.to_multiset()) =~= v@.to_multiset()) by {
        broadcast use vstd::multiset::group_multiset_axioms;
        assert(out@ + rest@ =~= v@);
        vstd::seq_lib::lemma_multiset_commutative(out@, rest@);
    }
    assert(merged_keys(out@).to_set() =~= Set::<Seq<char>>::empty());
    while rest.len() > 0
        invariant
            out.len() + rest.len() == v.len(),
            out@.to_multiset().add(rest@.to_multiset()) == v@.to_multiset(),
            merged_keys(out@).no_duplicates(),
            merged_keys(rest@).no_duplicates(),
            forall|e: Seq<char>| merged_keys(out@).contains(e) ==> !merged_keys(rest@).contains(e),
            merged_keys(out@).to_set().union(merged_keys(rest@).to_set()) == all,
            forall|i: int, j: int| 0 <= i < j < out.len() ==> merged_before(out[i], out[j]),
        decreases rest.len(),
    {
        let ghost rest_before = rest@;
        let ghost out_before = out@;
        proof {
            crate::git::contributions::lemma_drop_first_keys(merged_keys(rest_before));
        }
        let x = rest.remove(0);
        assert(merged_keys(rest@) =~= merged_keys(rest_before).drop_first());
        assert(merged_keys(rest_before)[0] == x.0@);
        let mut pos: usize = 0;
        while pos < out.len() && !merged_goes_before(&x, &out[pos])
            invariant
                pos <= out.len(),
                forall|t: int| 0 <= t < pos ==> !merged_before(x, out[t]),
            ensures
                pos <= out.len(),
                forall|t: int| 0 <= t < pos ==> !merged_before(x, out[t]),
                pos < out.len() ==> merged_before(x, out[pos as int]),
            decreases out.len() - pos,
        {
            pos = pos + 1;
        }
        assert(!merged_keys(out_before).contains(x.0@)) by {
            assert(merged_keys(rest_before).contains(x.0@));
        }
        let ghost xv = x;
        out.insert(pos, x);
        proof {
            broadcast use vstd::multiset::group_multiset_axioms;
            vstd::seq_lib::to_multiset_remove(rest_before, 0);
            vstd::seq_lib::to_multiset_insert(out_before, pos as int, xv);
            assert(rest_before[0] == xv);
            vstd::seq_lib::to_multiset_contains(rest_before, xv);
            assert(rest_before.remove(0) =~= rest@);
            assert(out_before.insert(pos as int, xv) =~= out@);
            assert(out@.to_multiset().add(rest@.to_multiset()) =~= v@.to_multiset());
            out_before.insert_ensures(pos as int, xv);
            assert(merged_keys(out@) =~= merged_keys(out_before).insert(pos as int, xv.0@));
            crate::git::contributions::lemma_insert_keys(merged_keys(out_before), pos as int, xv.0@);
            assert forall|e: Seq<char>| merged_keys(out@).contains(e) implies !merged_keys(rest@).contains(e) by {
                assert(merged_keys(out@).to_set().contains(e));
            }
            assert(merged_keys(out@).to_set().union(merged_keys(rest@).to_set()) =~= all);
            assert forall|i: int, j: int| 0 <= i < j < out.len() implies merged_before(out[i], out[j]) by {
                if j < pos {
                } else if i > pos {
                } else if i == pos {
                    assert(merged_before(xv, out_before[pos as int]));
                    if j > pos + 1 {
                        lemma_merged_order(xv, out_before[pos as int], out_before[j - 1]);
                    }
                } else {
                    assert(!merged_before(xv, out_before[i]));
                    assert(merged_keys(out_before)[i] != xv.0@) by {
                        assert(merged_keys(out_before).contains(merged_keys(out_before)[i]));
                    }
                    lemma_merged_order(out_before[i], xv, xv);
                    lemma_merged_order(xv, out_before[i], xv);
                }
            }
        }
    }
    assert(merged_keys(rest@) =~= Seq::<Seq<char>>::empty());
    assert(merged_keys(out@).to_set() =~= all);
    assert(out@.to_multiset() =~= v@.to_multiset()) by {
        broadcast use vstd::multiset::group_multiset_axioms;
        assert(out@ + rest@ =~= out@);
        vstd::seq_lib::lemma_multiset_commutative(out@, rest@);
    }
    out
}

/// The contributors of several repositories merged by canonical key, sorted by commits
/// (most first) and then by key.
pub open spec fn sorted_merge(m: Seq<MergedRow>, evs: Seq<(Seq<char>, Option<(Seq<char>, u64, u64, u64, u64)>)>) -> bool {
    &&& merges(m, evs)
    &&& forall|i: int, j: int| 0 <= i < j < m.len() ==> merged_before(m[i], m[j])
}

/// Merge events merged by key and sorted by commits (most first), then by key.
pub(crate) fn merge_and_sort(events: &Vec<MergeEvent>) -> (m: Vec<MergedRow>)
    requires
        merge_fits(event_views(events@)),
    ensures
        sorted_merge(m@, event_views(events@)),
{
    let rows = merge_rows(events);
    let ghost evs = event_views(events@);
    let out = sort_merged(rows);
    proof {
        assert forall|i: int| 0 <= i < out.len() implies {
            let k = (#[trigger] out@[i]).0@;
            &&& out@[i].1@ == key_name(evs, k)
            &&& out@[i].2 == key_sum(evs, k, 1)
            &&& out@[i].3 == key_sum(evs, k, 2)
            &&& out@[i].4 == key_sum(evs, k, 3)
            &&& out@[i].5 == key_sum(evs, k, 4)
        } by {
            vstd::seq_lib::to_multiset_contains(out@, out@[i]);
            vstd::seq_lib::to_multiset_contains(rows@, out@[i]);
            assert(out@.contains(out@[i]));
            let t = choose|t: int| 0 <= t < rows@.len() && rows@[t] == out@[i];
        }
    }
    out
}

pub(crate) fn merged_sorted(repos: &Vec<RepositoryAnalysis>, settings: &Settings) -> (m: Vec<MergedRow>)
    requires
        merge_fits(merge_events(repos@, settings@)),
    ensures
        sorted_merge(m@, merge_events(repos@, settings@)),
{
    let events = collect_events(repos, settings);
    merge_and_sort(&events)
}


/// The sum of field `f` over all contributor rows, whatever their key.
pub open spec fn all_sum(evs: Seq<(Seq<char>, Option<(Seq<char>, u64, u64, u64, u64)>)>, f: int) -> nat
    decreases evs.len(),
{
    if evs.len() == 0 {
        0
    } else {
        all_sum(evs.drop_last(), f) + match evs.last().1 {
            Some(c) => event_field(c, f),
            None => 0,
        }
    }
}

/// Every field summed over all contributor rows fits in `u64`.
pub open spec fn totals_fit(evs: Seq<(Seq<char>, Option<(Seq<char>, u64, u64, u64, u64)>)>) -> bool {
    forall|f: int| 1 <= f <= 4 ==> #[trigger] all_sum(evs, f) <= u64::MAX
}

pub(crate) proof fn lemma_key_sum_le_all_sum(evs: Seq<(Seq<char>, Option<(Seq<char>, u64, u64, u64, u64)>)>, key: Seq<char>, f: int)
    ensures
        key_sum(evs, key, f) <= all_sum(evs, f),
    decreases evs.len(),
{
    if evs.len() > 0 {
        lemma_key_sum_le_all_sum(evs.drop_last(), key, f);
    }
}

/// When the grand totals fit in `u64`, so do the totals of every key.
pub proof fn lemma_totals_fit_merge(evs: Seq<(Seq<char>, Option<(Seq<char>, u64, u64, u64, u64)>)>)
    requires
        totals_fit(evs),
    ensures
        merge_fits(evs),
{
    assert forall|key: Seq<char>, f: int| 1 <= f <= 4 implies #[trigger] key_sum(evs, key, f) <= u64::MAX by {
        lemma_key_sum_le_all_sum(evs, key, f);
        assert(all_sum(evs, f) <= u64::MAX);
    }
}

fn event_field_exec(c: &(String, u64, u64, u64, u64), f: usize) -> (r: u64)
    requires
        1 <= f <= 4,
    ensures
        r as nat == event_field((c.0@, c.1, c.2, c.3, c.4), f as int),
{
    if f == 1 { c.1 } else if f == 2 { c.2 } else if f == 3 { c.3 } else { c.4 }
}

/// Whether every field summed over all the events fits in `u64`.
pub(crate) fn events_totals_fit(evs: &Vec<MergeEvent>) -> (b: bool)
    ensures
        b == totals_fit(event_views(evs@)),
{
    let ghost ev = event_views(evs@);
    let mut f: usize = 1;
    while f <= 4
        invariant
            1 <= f <= 5,
            ev == event_views(evs@),
            forall|g: int| 1 <= g < f ==> #[trigger] all_sum(ev, g) <= u64::MAX,
        decreases 5 - f,
    {
        let mut sum: u64 = 0;
        let mut i: usize = 0;
        while i < evs.len()
            invariant
                1 <= f <= 4,
                i <= evs.len(),
                ev == event_views(evs@),
                sum as nat == all_sum(ev.take(i as int), f as int),
            decreases evs.len() - i,
        {
            assert(ev.take(i + 1).drop_last() =~= ev.take(i as int));
            assert(ev.take(i + 1).last() == event_view(evs@[i as int]));
            match &evs[i].1 {
                Some(c) => {
                    let x = event_field_exec(c, f);
                    if x > u64::MAX - sum {
                        proof {
                            lemma_all_sum_prefix(ev, i + 1, f as int);
                        }
                        return false;
                    }
                    sum = sum + x;
                },
                None => {},
            }
            i = i + 1;
        }
        assert(ev.take(evs.len() as int) =~= ev);
        f = f + 1;
    }
    true
}

proof fn lemma_all_sum_prefix(evs: Seq<(Seq<char>, Option<(Seq<char>, u64, u64, u64, u64)>)>, k: int, f: int)
    requires
        0 <= k <= evs.len(),
    ensures
        all_sum(evs.take(k), f) <= all_sum(evs, f),
    decreases evs.len() - k,
{
    if k < evs.len() {
        lemma_all_sum_prefix(evs, k + 1, f);
        assert(evs.take(k + 1).drop_last() =~= evs.take(k));
    } else {
        assert(evs.take(k) =~= evs);
    }
}

/// The merged contributor rows when the grand totals of commits, lines and files over all
/// repositories fit in `u64` (then every per-contributor total fits), else `None`.
pub fn contribution_rows_checked(repos: &Vec<RepositoryAnalysis>, settings: &Settings) -> (r: Option<Vec<crate::report::table::UsersContributionRow>>)
    ensures
        match r {
            Some(rows) => totals_fit(merge_events(repos@, settings@)) && is_contribution_rows(rows@, repos@, settings@),
            None => !totals_fit(merge_events(repos@, settings@)),
        },
{
    let events = collect_events(repos, settings);
    if !events_totals_fit(&events) {
        return None;
    }
    proof {
        lemma_totals_fit_merge(merge_events(repos@, settings@));
    }
    Some(build_contribution_rows(repos, settings))
}

/// The contributors of several repositories as `(key, name)`, one per canonical key,
/// sorted by commits (most first) and then by key; the name is the first non-empty author
/// name under that key.
pub fn get_contributor_emails(repos: &Vec<RepositoryAnalysis>, settings: &Settings) -> (r: Vec<(String, String)>)
    requires
        merge_fits(merge_events(repos@, settings@)),
    ensures
        exists|m: Seq<MergedRow>| {
            &&& sorted_merge(m, merge_events(repos@, settings@))
            &&& r@.len() == m.len()
            &&& forall|i: int| 0 <= i < m.len() ==> (#[trigger] r@[i]).0@ == m[i].0@ && r@[i].1@ == m[i].1@
        },
{
    let m = merged_sorted(repos, settings);
    let mut r: Vec<(String, String)> = Vec::new();
    let mut i: usize = 0;
    while i < m.len()
        invariant
            i <= m.len(),
            r@.len() == i,
            forall|t: int| 0 <= t < i ==> (#[trigger] r@[t]).0@ == m@[t].0@ && r@[t].1@ == m@[t].1@,
        decreases m.len() - i,
    {
        r.push((m[i].0.clone(), m[i].1.clone()));
        i = i + 1;
    }
    r
}

/// `r` holds the contribution rows of the repositories: per canonical key its commits,
/// lines modified (added plus deleted, saturating) and files touched, sorted by commits
/// (most first) and then by key.
pub open spec fn is_contribution_rows(r: Seq<crate::report::table::UsersContributionRow>, repos: Seq<RepositoryAnalysis>, users: Seq<UserView>) -> bool {
    exists|m: Seq<MergedRow>| {
        &&& #[trigger] sorted_merge(m, merge_events(repos, users))
        &&& r.len() == m.len()
        &&& forall|i: int| 0 <= i < m.len() ==> {
            &&& (#[trigger] r[i]).email@ == m[i].0@
            &&& r[i].commits == m[i].2
            &&& r[i].lines_modified == (if m[i].3 + m[i].4 > u64::MAX { u64::MAX as int } else { m[i].3 + m[i].4 })
            &&& r[i].files_touched == m[i].5
        }
    }
}

/// The contribution rows of several repositories: per canonical key its commits, lines
/// modified (added plus deleted, saturating) and files touched, sorted by commits (most
/// first) and then by key.
pub fn build_contribution_rows(repos: &Vec<RepositoryAnalysis>, settings: &Settings) -> (r: Vec<crate::report::table::UsersContributionRow>)
    requires
        merge_fits(merge_events(repos@, settings@)),
    ensures
        is_contribution_rows(r@, repos@, settings@),
{
    let m = merged_sorted(repos, settings);
    let mut r: Vec<crate::report::table::UsersContributionRow> = Vec::new();
    let mut i: usize = 0;
    while i < m.len()
        invariant
            i <= m.len(),
            r@.len() == i,
            forall|t: int| 0 <= t < i ==> {
                &&& (#[trigger] r@[t]).email@ == m@[t].0@
                &&& r@[t].commits == m@[t].2
                &&& r@[t].lines_modified == (if m@[t].3 + m@[t].4 > u64::MAX { u64::MAX as int } else { m@[t].3 + m@[t].4 })
                &&& r@[t].files_touched == m@[t].5
            },
        decreases m.len() - i,
    {
        r.push(crate::report::table::UsersContributionRow {
            email: m[i].0.clone(),
            commits: m[i].2,
            lines_modified: m[i].3.saturating_add(m[i].4),
            files_touched: m[i].5,
        });
        i = i + 1;
    }
    r
}

// ---------------------------------------------------------------------------
// Repositories compared
// ---------------------------------------------------------------------------

/// A repository's commits and active days, overall and per weekday (Monday first). Its
/// commits per active day are `total_commits / active_days`, and per weekday
/// `weekday_commits[i] / weekday_active_days[i]`, each 0 when there are no such days.
#[derive(Debug, Clone)]
pub struct RepoComparisonRow {
    pub name: String,
    pub total_commits: u64,
    pub active_days: usize,
    pub weekday_commits: Vec<u32>,
    pub weekday_active_days: Vec<usize>,
}

/// The distinct active dates of a list of activity rows.
pub open spec fn acts_dates(acts: Seq<ContributorActivityStats>) -> Set<Seq<char>>
    decreases acts.len(),
{
    if acts.len() == 0 {
        Set::empty()
    } else {
        acts_dates(acts.drop_last()).union(string_views(acts.last().active_dates@).to_set())
    }
}

/// The distinct active dates on weekday `w` of a list of activity rows.
pub open spec fn acts_weekday_dates(acts: Seq<ContributorActivityStats>, w: int) -> Set<Seq<char>>
    decreases acts.len(),
{
    if acts.len() == 0 {
        Set::empty()
    } else {
        let a = acts.last();
        acts_weekday_dates(acts.drop_last(), w).union(
            if w < a.active_dates_by_weekday.len() {
                string_views(a.active_dates_by_weekday[w]@).to_set()
            } else {
                Set::empty()
            },
        )
    }
}

/// `row` compares the repository `r`.
pub open spec fn compares(row: RepoComparisonRow, r: RepositoryAnalysis) -> bool {
    let acts = r.contributions.activity_by_contributor@;
    &&& row.name@ == crate::model::spec_display_name(r.repository.root@)
    &&& row.total_commits == r.contributions.total_commits
    &&& row.active_days == acts_dates(acts).len()
    &&& row.weekday_commits@ == r.activity.by_weekday@
    &&& row.weekday_active_days.len() == 7
    &&& forall|w: int| 0 <= w < 7 ==> #[trigger] row.weekday_active_days[w] == acts_weekday_dates(acts, w).len()
}

/// Adds the strings of `v` to the distinct strings `acc`.
pub(crate) fn union_into(acc: &mut Vec<String>, v: &Vec<String>)
    requires
        string_views(old(acc)@).no_duplicates(),
    ensures
        string_views(final(acc)@).no_duplicates(),
        string_views(final(acc)@).to_set() == string_views(old(acc)@).to_set().union(string_views(v@).to_set()),
{
    let mut k: usize = 0;
    while k < v.len()
        invariant
            k <= v.len(),
            string_views(acc@).no_duplicates(),
            string_views(acc@).to_set() == string_views(old(acc)@).to_set().union(string_views(v@.take(k as int)).to_set()),
        decreases v.len() - k,
    {
        insert_string(acc, v[k].clone());
        assert(string_views(v@.take(k + 1)) =~= string_views(v@.take(k as int)).push(v@[k as int]@));
        proof {
            string_views(v@.take(k as int)).lemma_push_to_set_commute(v@[k as int]@);
        }
        assert(string_views(acc@).to_set() =~= string_views(old(acc)@).to_set().union(string_views(v@.take(k + 1)).to_set()));
        k = k + 1;
    }
    assert(v@.take(v.len() as int) =~= v@);
}

/// One repository compared.
fn compare_repo(r: &RepositoryAnalysis) -> (row: RepoComparisonRow)
    ensures
        compares(row, *r),
{
    let acts = &r.contributions.activity_by_contributor;
    let mut all: Vec<String> = Vec::new();
    let mut by_day: Vec<Vec<String>> = Vec::new();
    let mut w: usize = 0;
    while w < 7
        invariant
            w <= 7,
            by_day.len() == w,
            forall|d: int| 0 <= d < w ==> (#[trigger] by_day[d])@.len() == 0,
        decreases 7 - w,
    {
        by_day.push(Vec::new());
        w = w + 1;
    }
    assert(string_views(all@).to_set() =~= acts_dates(acts@.take(0)));
    assert forall|d: int| 0 <= d < 7 implies string_views((#[trigger] by_day[d])@).to_set() =~= acts_weekday_dates(acts@.take(0), d) by {
        assert(string_views(by_day[d]@) =~= Seq::<Seq<char>>::empty());
    }
    let mut i: usize = 0;
    while i < acts.len()
        invariant
            i <= acts.len(),
            string_views(all@).no_duplicates(),
            string_views(all@).to_set() == acts_dates(acts@.take(i as int)),
            by_day.len() == 7,
            forall|d: int| 0 <= d < 7 ==> string_views((#[trigger] by_day[d])@).no_duplicates(),
            forall|d: int| 0 <= d < 7 ==> string_views((#[trigger] by_day[d])@).to_set() == acts_weekday_dates(acts@.take(i as int), d),
        decreases acts.len() - i,
    {
        assert(acts@.take(i + 1).drop_last() =~= acts@.take(i as int));
        assert(acts@.take(i + 1).last() == acts@[i as int]);
        union_into(&mut all, &acts[i].active_dates);
        let a = &acts[i];
        let mut d: usize = 0;
        while d < 7
            invariant
                d <= 7,
                i < acts.len(),
                a == &acts@[i as int],
                acts@.take(i + 1).drop_last() == acts@.take(i as int),
                acts@.take(i + 1).last() == acts@[i as int],
                by_day.len() == 7,
                forall|e: int| 0 <= e < 7 ==> string_views((#[trigger] by_day[e])@).no_duplicates(),
                forall|e: int| 0 <= e < d ==> string_views((#[trigger] by_day[e])@).to_set() == acts_weekday_dates(acts@.take(i + 1), e),
                forall|e: int| d <= e < 7 ==> string_views((#[trigger] by_day[e])@).to_set() == acts_weekday_dates(acts@.take(i as int), e),
            decreases 7 - d,
        {
            let ghost before = by_day@;
            if d < a.active_dates_by_weekday.len() {
                union_into(&mut by_day[d], &a.active_dates_by_weekday[d]);
            } else {
                assert(string_views(by_day[d as int]@).to_set() =~= acts_weekday_dates(acts@.take(i as int), d as int).union(Set::empty()));
            }
            assert forall|e: int| 0 <= e < 7 && e != d implies (#[trigger] by_day[e]) == before[e] by {}
            assert(string_views(by_day[d as int]@).to_set() =~= acts_weekday_dates(acts@.take(i + 1), d as int));
            d = d + 1;
        }
        i = i + 1;
    }
    assert(acts@.take(acts.len() as int) =~= acts@);
    proof {
        string_views(all@).unique_seq_to_set();
    }
    let mut days: Vec<usize> = Vec::new();
    let mut d: usize = 0;
    while d < 7
        invariant
            d <= 7,
            by_day.len() == 7,
            days.len() == d,
            forall|e: int| 0 <= e < 7 ==> string_views((#[trigger] by_day[e])@).no_duplicates(),
            forall|e: int| 0 <= e < 7 ==> string_views((#[trigger] by_day[e])@).to_set() == acts_weekday_dates(acts@, e),
            forall|e: int| 0 <= e < d ==> #[trigger] days[e] == acts_weekday_dates(acts@, e).len(),
        decreases 7 - d,
    {
        proof {
            string_views(by_day[d as int]@).unique_seq_to_set();
        }
        days.push(by_day[d].len());
        d = d + 1;
    }
    let counts = copy_counts(&r.activity.by_weekday);
    RepoComparisonRow {
        name: r.repository.display_name(),
        total_commits: r.contributions.total_commits,
        active_days: all.len(),
        weekday_commits: counts,
        weekday_active_days: days,
    }
}

/// Per repository: its name, commits, distinct active days (over all contributors), and
/// active days per weekday.
pub fn build_repo_comparison(repos: &Vec<RepositoryAnalysis>) -> (r: Vec<RepoComparisonRow>)
    ensures
        r.len() == repos.len(),
        forall|i: int| 0 <= i < repos.len() ==> compares(#[trigger] r[i], repos[i]),
{
    let mut r: Vec<RepoComparisonRow> = Vec::new();
    let mut i: usize = 0;
    while i < repos.len()
        invariant
            i <= repos.len(),
            r.len() == i,
            forall|j: int| 0 <= j < i ==> compares(#[trigger] r[j], repos[j]),
        decreases repos.len() - i,
    {
        r.push(compare_repo(&repos[i]));
        i = i + 1;
    }
    r
}

/// The value of `num / den` (0 for no days) is less than that of `n2 / d2`.
pub open spec fn ratio_lt(num: nat, den: nat, n2: nat, d2: nat) -> bool {
    if den == 0 || num == 0 {
        d2 > 0 && n2 > 0
    } else if d2 == 0 {
        false
    } else {
        num * d2 < n2 * den
    }
}

fn ratio_lt_exec(num: u64, den: u64, n2: u64, d2: u64) -> (b: bool)
    ensures
        b == ratio_lt(num as nat, den as nat, n2 as nat, d2 as nat),
{
    if den == 0 || num == 0 {
        d2 > 0 && n2 > 0
    } else if d2 == 0 {
        false
    } else {
        proof {
            vstd::arithmetic::mul::lemma_mul_upper_bound(num as int, u64::MAX as int, d2 as int, u64::MAX as int);
            vstd::arithmetic::mul::lemma_mul_upper_bound(n2 as int, u64::MAX as int, den as int, u64::MAX as int);
        }
        (num as u128) * (d2 as u128) < (n2 as u128) * (den as u128)
    }
}

/// The ratios of a list, by index.
pub open spec fn ratio_at(keys: Seq<(u64, u64)>, i: int) -> (nat, nat) {
    (keys[i].0 as nat, keys[i].1 as nat)
}

/// Index `a` comes before index `b`: a greater ratio, or an equal one and a smaller index.
pub open spec fn ranks_before(keys: Seq<(u64, u64)>, a: int, b: int) -> bool {
    ||| ratio_lt(keys[b].0 as nat, keys[b].1 as nat, keys[a].0 as nat, keys[a].1 as nat)
    ||| (!ratio_lt(keys[a].0 as nat, keys[a].1 as nat, keys[b].0 as nat, keys[b].1 as nat) && a < b)
}

proof fn lemma_ratio_order(n1: nat, d1: nat, n2: nat, d2: nat, n3: nat, d3: nat)
    ensures
        ratio_lt(n1, d1, n2, d2) ==> !ratio_lt(n2, d2, n1, d1),
        !ratio_lt(n1, d1, n2, d2) && !ratio_lt(n2, d2, n3, d3) ==> !ratio_lt(n1, d1, n3, d3),
        ratio_lt(n1, d1, n2, d2) && ratio_lt(n2, d2, n3, d3) ==> ratio_lt(n1, d1, n3, d3),
        ratio_lt(n1, d1, n2, d2) ==> ratio_lt(n1, d1, n3, d3) || ratio_lt(n3, d3, n2, d2),
{
    assert(ratio_lt(n1, d1, n2, d2) ==> !ratio_lt(n2, d2, n1, d1)) by (nonlinear_arith);
    assert(!ratio_lt(n1, d1, n2, d2) && !ratio_lt(n2, d2, n3, d3) ==> !ratio_lt(n1, d1, n3, d3)) by (nonlinear_arith);
    assert(ratio_lt(n1, d1, n2, d2) && ratio_lt(n2, d2, n3, d3) ==> ratio_lt(n1, d1, n3, d3)) by (nonlinear_arith);
    assert(ratio_lt(n1, d1, n2, d2) ==> ratio_lt(n1, d1, n3, d3) || ratio_lt(n3, d3, n2, d2)) by (nonlinear_arith);
}

/// `ord` lists the indices of `keys` once each, greatest ratio first, equal ratios in index
/// order (as a stable sort by ratio, descending, leaves them).
pub open spec fn is_ranking(keys: Seq<(u64, u64)>, ord: Seq<int>) -> bool {
    &&& ord.len() == keys.len()
    &&& ord.no_duplicates()
    &&& forall|i: int| 0 <= i < ord.len() ==> 0 <= #[trigger] ord[i] < keys.len()
    &&& forall|i: int, j: int| 0 <= i < j < ord.len() ==> ranks_before(keys, ord[i], ord[j])
}

pub open spec fn usize_ints(v: Seq<usize>) -> Seq<int> {
    v.map_values(|x: usize| x as int)
}

/// The indices of `keys`, greatest ratio first, equal ratios in index order.
pub(crate) fn rank_by_ratio(keys: &Vec<(u64, u64)>) -> (out: Vec<usize>)
    ensures
        is_ranking(keys@, usize_ints(out@)),
{
    let ghost ks = keys@;
    let mut out: Vec<usize> = Vec::new();
    let mut k: usize = 0;
    while k < keys.len()
        invariant
            k <= keys.len(),
            ks == keys@,
            out.len() == k,
            usize_ints(out@).no_duplicates(),
            forall|i: int| 0 <= i < out.len() ==> #[trigger] out@[i] < k,
            forall|i: int, j: int| 0 <= i < j < out.len() ==> ranks_before(ks, out@[i] as int, out@[j] as int),
        decreases keys.len() - k,
    {
        let mut pos: usize = 0;
        while pos < out.len() && !ratio_lt_exec(keys[out[pos]].0, keys[out[pos]].1, keys[k].0, keys[k].1)
            invariant
                pos <= out.len(),
                k < keys.len(),
                forall|i: int| 0 <= i < out.len() ==> #[trigger] out@[i] < k,
                forall|t: int| 0 <= t < pos ==> !ratio_lt(
                    keys@[out@[t] as int].0 as nat,
                    keys@[out@[t] as int].1 as nat,
                    keys@[k as int].0 as nat,
                    keys@[k as int].1 as nat,
                ),
            ensures
                pos <= out.len(),
                forall|t: int| 0 <= t < pos ==> !ratio_lt(
                    keys@[out@[t] as int].0 as nat,
                    keys@[out@[t] as int].1 as nat,
                    keys@[k as int].0 as nat,
                    keys@[k as int].1 as nat,
                ),
                pos < out.len() ==> ratio_lt(
                    keys@[out@[pos as int] as int].0 as nat,
                    keys@[out@[pos as int] as int].1 as nat,
                    keys@[k as int].0 as nat,
                    keys@[k as int].1 as nat,
                ),
            decreases out.len() - pos,
        {
            pos = pos + 1;
        }
        let ghost before = out@;
        out.insert(pos, k);
        proof {
            before.insert_ensures(pos as int, k);
            assert(usize_ints(out@) =~= usize_ints(before).insert(pos as int, k as int));
            assert forall|a: int, b: int| 0 <= a < b < out.len() implies usize_ints(out@)[a] != usize_ints(out@)[b] by {
                if a != pos && b != pos {
                    let a0 = if a < pos { a } else { a - 1 };
                    let b0 = if b < pos { b } else { b - 1 };
                    assert(usize_ints(before)[a0] != usize_ints(before)[b0]);
                }
            }
            let kk = k as int;
            let (nk, dk) = (ks[kk].0 as nat, ks[kk].1 as nat);
            assert forall|a: int, b: int| 0 <= a < b < out.len() implies ranks_before(ks, out@[a] as int, out@[b] as int) by {
                if a == pos {
                    let y = out@[b] as int;
                    let p = before[pos as int] as int;
                    if b == pos + 1 {
                    } else {
                        assert(ranks_before(ks, p, y));
                        lemma_ratio_order(ks[p].0 as nat, ks[p].1 as nat, nk, dk, ks[y].0 as nat, ks[y].1 as nat);
                        lemma_ratio_order(ks[y].0 as nat, ks[y].1 as nat, ks[p].0 as nat, ks[p].1 as nat, nk, dk);
                        lemma_ratio_order(ks[p].0 as nat, ks[p].1 as nat, ks[y].0 as nat, ks[y].1 as nat, nk, dk);
                    }
                } else if b == pos {
                    let x = out@[a] as int;
                    assert(!ratio_lt(ks[x].0 as nat, ks[x].1 as nat, nk, dk));
                    assert(x < kk);
                } else {
                    let a0 = if a < pos { a } else { a - 1 };
                    let b0 = if b < pos { b } else { b - 1 };
                    assert(out@[a] == before[a0] && out@[b] == before[b0]);
                }
            }
        }
        k = k + 1;
    }
    out
}

/// A comparison row holds seven weekday counts and seven weekday day counts.
pub open spec fn row_wf(r: RepoComparisonRow) -> bool {
    r.weekday_commits.len() == 7 && r.weekday_active_days.len() == 7
}

/// Commits per active day of each row, as ratios.
pub open spec fn cpd_keys(rows: Seq<RepoComparisonRow>) -> Seq<(u64, u64)> {
    rows.map_values(|r: RepoComparisonRow| (r.total_commits, r.active_days as u64))
}

/// Commits per active day on weekday `d` of each row, as ratios.
pub open spec fn wd_keys(rows: Seq<RepoComparisonRow>, d: int) -> Seq<(u64, u64)> {
    rows.map_values(|r: RepoComparisonRow| (r.weekday_commits[d] as u64, r.weekday_active_days[d] as u64))
}

pub(crate) fn cpd_keys_exec(rows: &Vec<RepoComparisonRow>) -> (k: Vec<(u64, u64)>)
    ensures
        k@ == cpd_keys(rows@),
{
    let mut k: Vec<(u64, u64)> = Vec::new();
    let mut i: usize = 0;
    while i < rows.len()
        invariant
            i <= rows.len(),
            k@ == cpd_keys(rows@.take(i as int)),
        decreases rows.len() - i,
    {
        k.push((rows[i].total_commits, rows[i].active_days as u64));
        assert(cpd_keys(rows@.take(i + 1)) =~= cpd_keys(rows@.take(i as int)).push((rows@[i as int].total_commits, rows@[i as int].active_days as u64)));
        i = i + 1;
    }
    assert(rows@.take(rows.len() as int) =~= rows@);
    k
}

pub(crate) fn wd_keys_exec(rows: &Vec<RepoComparisonRow>, d: usize) -> (k: Vec<(u64, u64)>)
    requires
        d < 7,
        forall|i: int| 0 <= i < rows.len() ==> row_wf(#[trigger] rows[i]),
    ensures
        k@ == wd_keys(rows@, d as int),
{
    let mut k: Vec<(u64, u64)> = Vec::new();
    let mut i: usize = 0;
    while i < rows.len()
        invariant
            i <= rows.len(),
            d < 7,
            forall|j: int| 0 <= j < rows.len() ==> row_wf(#[trigger] rows[j]),
            k@ == wd_keys(rows@.take(i as int), d as int),
        decreases rows.len() - i,
    {
        assert(row_wf(rows[i as int]));
        let e = (rows[i].weekday_commits[d] as u64, rows[i].weekday_active_days[d] as u64);
        k.push(e);
        assert(wd_keys(rows@.take(i + 1), d as int) =~= wd_keys(rows@.take(i as int), d as int).push(e));
        i = i + 1;
    }
    assert(rows@.take(rows.len() as int) =~= rows@);
    k
}

/// The entry `name (C/D)` of a row on weekday `d`.
pub open spec fn wd_entry(r: RepoComparisonRow, d: int) -> Seq<char> {
    r.name@ + " ("@ + crate::report::table::ratio_text(r.weekday_commits[d] as nat, r.weekday_active_days[d] as nat) + ")"@
}

/// The row has commits on days of weekday `d`.
pub open spec fn wd_positive(r: RepoComparisonRow, d: int) -> bool {
    r.weekday_commits[d] > 0 && r.weekday_active_days[d] > 0
}

/// The weekday entries of the rows at `idx` that have commits on weekday `d`, in order.
pub open spec fn wd_entries(rows: Seq<RepoComparisonRow>, idx: Seq<int>, d: int) -> Seq<Seq<char>>
    decreases idx.len(),
{
    if idx.len() == 0 {
        Seq::empty()
    } else {
        let p = wd_entries(rows, idx.drop_last(), d);
        let r = rows[idx.last()];
        if wd_positive(r, d) {
            p.push(wd_entry(r, d))
        } else {
            p
        }
    }
}

/// The pieces joined with `sep` between them.
pub open spec fn join_with(parts: Seq<Seq<char>>, sep: Seq<char>) -> Seq<char>
    decreases parts.len(),
{
    if parts.len() == 0 {
        Seq::empty()
    } else if parts.len() == 1 {
        parts[0]
    } else {
        join_with(parts.drop_last(), sep) + sep + parts.last()
    }
}

/// The first `min(3, len)` items.
pub open spec fn top3(ord: Seq<int>) -> Seq<int> {
    if ord.len() <= 3 {
        ord
    } else {
        ord.take(3)
    }
}

/// The short English name of weekday `d` (0 = Monday).
pub open spec fn weekday_short(d: int) -> Seq<char> {
    if d == 0 {
        "Mon"@
    } else if d == 1 {
        "Tue"@
    } else if d == 2 {
        "Wed"@
    } else if d == 3 {
        "Thu"@
    } else if d == 4 {
        "Fri"@
    } else if d == 5 {
        "Sat"@
    } else {
        "Sun"@
    }
}

pub(crate) fn weekday_short_exec(d: usize) -> (s: &'static str)
    requires
        d < 7,
    ensures
        s@ == weekday_short(d as int),
{
    if d == 0 {
        "Mon"
    } else if d == 1 {
        "Tue"
    } else if d == 2 {
        "Wed"
    } else if d == 3 {
        "Thu"
    } else if d == 4 {
        "Fri"
    } else if d == 5 {
        "Sat"
    } else {
        "Sun"
    }
}

/// The weekday entries of the rows at `idx` (at most 3) with commits on weekday `d`.
pub(crate) fn wd_entries_exec(rows: &Vec<RepoComparisonRow>, idx: &Vec<usize>, d: usize) -> (r: Vec<Vec<char>>)
    requires
        d < 7,
        forall|i: int| 0 <= i < rows.len() ==> row_wf(#[trigger] rows[i]),
        forall|i: int| 0 <= i < idx.len() ==> #[trigger] idx@[i] < rows.len(),
    ensures
        r@.map_values(|v: Vec<char>| v@) == wd_entries(rows@, usize_ints(idx@), d as int),
{
    let mut r: Vec<Vec<char>> = Vec::new();
    let mut i: usize = 0;
    while i < idx.len()
        invariant
            i <= idx.len(),
            d < 7,
            forall|j: int| 0 <= j < rows.len() ==> row_wf(#[trigger] rows[j]),
            forall|j: int| 0 <= j < idx.len() ==> #[trigger] idx@[j] < rows.len(),
            r@.map_values(|v: Vec<char>| v@) == wd_entries(rows@, usize_ints(idx@.take(i as int)), d as int),
        decreases idx.len() - i,
    {
        let ghost before = r@;
        assert(usize_ints(idx@.take(i + 1)).drop_last() =~= usize_ints(idx@.take(i as int)));
        assert(usize_ints(idx@.take(i + 1)).last() == idx@[i as int] as int);
        let row = &rows[idx[i]];
        assert(row_wf(*row));
        if row.weekday_commits[d] > 0 && row.weekday_active_days[d] > 0 {
            let mut v = str_chars(row.name.as_str());
            crate::text::push_str(&mut v, " (");
            let t = crate::report::table::format_ratio_2dp(row.weekday_commits[d] as u64, row.weekday_active_days[d] as u64);
            let tc = str_chars(t.as_str());
            crate::text::push_all(&mut v, &tc);
            crate::text::push_str(&mut v, ")");
            r.push(v);
            assert(r@.map_values(|v: Vec<char>| v@) =~= before.map_values(|v: Vec<char>| v@).push(wd_entry(*row, d as int)));
        } else {
            assert(r@.map_values(|v: Vec<char>| v@) =~= before.map_values(|v: Vec<char>| v@));
        }
        i = i + 1;
    }
    assert(idx@.take(idx.len() as int) =~= idx@);
    r
}

/// Appends the pieces joined with `sep`.
pub(crate) fn push_joined(out: &mut Vec<char>, parts: &Vec<Vec<char>>, sep: &str)
    ensures
        final(out)@ == old(out)@ + join_with(parts@.map_values(|v: Vec<char>| v@), sep@),
{
    let ghost ps = parts@.map_values(|v: Vec<char>| v@);
    let mut i: usize = 0;
    while i < parts.len()
        invariant
            i <= parts.len(),
            ps == parts@.map_values(|v: Vec<char>| v@),
            out@ == old(out)@ + join_with(ps.take(i as int), sep@),
        decreases parts.len() - i,
    {
        assert(ps.take(i + 1).drop_last() =~= ps.take(i as int));
        if i > 0 {
            crate::text::push_str(out, sep);
        } else {
            assert(ps.take(1) =~= seq![ps[0]]);
        }
        crate::text::push_all(out, &parts[i]);
        i = i + 1;
    }
    assert(ps.take(parts.len() as int) =~= ps);
}
} // verus!
