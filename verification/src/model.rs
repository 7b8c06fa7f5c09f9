//! The data model shared by the analyses and the reports.
use vstd::prelude::*;

use crate::analytics::TrendsData;
use crate::text::{
    ascending, lemma_ascending_unique, nat_digits, push_u64_digits, rfind_char, rfind_char_in,
    str_chars, string_from_chars, string_of_range, string_views,
};

verus! {

broadcast use vstd::string::group_string_axioms;

/// A request to analyse one or more repositories (given as paths).
#[derive(Debug, Clone)]
pub struct AnalysisRequest {
    pub repositories: Vec<String>,
}

/// A repository to analyse, identified by its root directory.
#[derive(Debug, Clone)]
pub struct RepositoryTarget {
    pub root: String,
}

/// `s` without its trailing `/` characters.
pub open spec fn trim_trailing_slashes(s: Seq<char>) -> Seq<char>
    decreases s.len(),
{
    if s.len() > 0 && s.last() == '/' {
        trim_trailing_slashes(s.drop_last())
    } else {
        s
    }
}

/// The last component of a path (after trailing slashes are dropped), or the whole path
/// when that component is empty, `.` or `..`.
pub open spec fn spec_display_name(root: Seq<char>) -> Seq<char> {
    let t = trim_trailing_slashes(root);
    let last = match rfind_char(t, '/') {
        Some(i) => t.skip(i + 1),
        None => t,
    };
    if last.len() == 0 || last == "."@ || last == ".."@ {
        root
    } else {
        last
    }
}

impl RepositoryTarget {
    /// The name a report shows for the repository: the last component of its root.
    pub fn display_name(&self) -> (r: String)
        ensures
            r@ == spec_display_name(self.root@),
    {
        let c = str_chars(self.root.as_str());
        let mut n = c.len();
        assert(c@.take(n as int) =~= c@);
        while n > 0 && c[n - 1] == '/'
            invariant
                n <= c.len(),
                trim_trailing_slashes(c@) == trim_trailing_slashes(c@.take(n as int)),
            decreases n,
        {
            assert(c@.take(n as int).drop_last() =~= c@.take(n - 1));
            n = n - 1;
        }
        assert(trim_trailing_slashes(c@.take(n as int)) == c@.take(n as int));
        assert(c@.subrange(0, n as int) =~= c@.take(n as int));
        let start = match rfind_char_in(&c, 0, n, '/') {
            Some(i) => i + 1,
            None => 0,
        };
        assert(start == 0 ==> c@.subrange(start as int, n as int) =~= c@.take(n as int));
        assert(start > 0 ==> c@.subrange(start as int, n as int) =~= c@.take(n as int).skip(start as int));
        let last = string_of_range(&c, start, n);
        let lc = str_chars(last.as_str());
        let bad = lc.len() == 0 || (lc.len() == 1 && lc[0] == '.') || (lc.len() == 2 && lc[0] == '.' && lc[1] == '.');
        proof {
            reveal_strlit(".");
            reveal_strlit("..");
            if lc@.len() == 1 && lc@[0] == '.' {
                assert(lc@ =~= "."@);
            }
            if lc@.len() == 2 && lc@[0] == '.' && lc@[1] == '.' {
                assert(lc@ =~= ".."@);
            }
        }
        if bad {
            self.root.clone()
        } else {
            last
        }
    }
}

/// Per-contributor totals of one repository.
#[derive(Debug, Clone)]
pub struct ContributorStats {
    pub name: String,
    pub email: String,
    pub commits: u64,
    pub lines_added: u64,
    pub lines_deleted: u64,
    pub net_lines: i64,
    pub files_touched: u64,
    /// Changed files per extension; each extension occurs once.
    pub file_extensions: Vec<(String, u64)>,
    pub active_days: u64,
    pub first_commit: String,
    pub last_commit: String,
}

/// Per-contributor activity facts: commits per weekday (Monday first) and per hour, and the
/// distinct dates and `date:hour` buckets in which the contributor committed.
///
/// Each list of dates or buckets holds each value once; `commits_by_date` holds each date once.
#[derive(Debug, Clone)]
pub struct ContributorActivityStats {
    pub email: String,
    pub weekday_commits: Vec<u32>,
    pub hour_commits: Vec<u32>,
    pub active_dates: Vec<String>,
    pub active_dates_by_weekday: Vec<Vec<String>>,
    pub active_hour_buckets: Vec<String>,
    pub active_hour_buckets_by_hour: Vec<Vec<String>>,
    pub commits_by_date: Vec<(String, u32)>,
}

impl ContributorStats {
    /// The extensions of `file_extensions` in ascending order, so that each occurs once.
    pub open spec fn wf(&self) -> bool {
        ascending(self.file_extensions@.map_values(|p: (String, u64)| p.0@))
    }
}

impl ContributorActivityStats {
    /// The shape and order of the activity facts: 7 weekdays and 24 hours, and every list
    /// of dates or buckets (and the dates of `commits_by_date`) in ascending order, so that
    /// no value occurs twice in it.
    pub open spec fn wf(&self) -> bool {
        &&& self.weekday_commits.len() == 7
        &&& self.hour_commits.len() == 24
        &&& self.active_dates_by_weekday.len() == 7
        &&& self.active_hour_buckets_by_hour.len() == 24
        &&& ascending(string_views(self.active_dates@))
        &&& forall|w: int| 0 <= w < 7 ==> ascending(string_views(#[trigger] self.active_dates_by_weekday[w]@))
        &&& ascending(string_views(self.active_hour_buckets@))
        &&& forall|h: int| 0 <= h < 24 ==> ascending(string_views(#[trigger] self.active_hour_buckets_by_hour[h]@))
        &&& ascending(self.commits_by_date@.map_values(|p: (String, u32)| p.0@))
    }
}

/// In well-formed activity facts no date, bucket or dated count occurs twice.
pub proof fn lemma_activity_values_unique(a: ContributorActivityStats)
    requires
        a.wf(),
    ensures
        string_views(a.active_dates@).no_duplicates(),
        forall|w: int| 0 <= w < 7 ==> string_views(#[trigger] a.active_dates_by_weekday[w]@).no_duplicates(),
        string_views(a.active_hour_buckets@).no_duplicates(),
        forall|h: int| 0 <= h < 24 ==> string_views(#[trigger] a.active_hour_buckets_by_hour[h]@).no_duplicates(),
        a.commits_by_date@.map_values(|p: (String, u32)| p.0@).no_duplicates(),
{
    lemma_ascending_unique(string_views(a.active_dates@));
    lemma_ascending_unique(string_views(a.active_hour_buckets@));
    lemma_ascending_unique(a.commits_by_date@.map_values(|p: (String, u32)| p.0@));
    assert forall|w: int| 0 <= w < 7 implies string_views(#[trigger] a.active_dates_by_weekday[w]@).no_duplicates() by {
        lemma_ascending_unique(string_views(a.active_dates_by_weekday[w]@));
    }
    assert forall|h: int| 0 <= h < 24 implies string_views(#[trigger] a.active_hour_buckets_by_hour[h]@).no_duplicates() by {
        lemma_ascending_unique(string_views(a.active_hour_buckets_by_hour[h]@));
    }
}

/// In a well-formed contributor no extension occurs twice.
pub proof fn lemma_extensions_unique(c: ContributorStats)
    requires
        c.wf(),
    ensures
        c.file_extensions@.map_values(|p: (String, u64)| p.0@).no_duplicates(),
{
    lemma_ascending_unique(c.file_extensions@.map_values(|p: (String, u64)| p.0@));
}

/// The contributions found in one repository.
#[derive(Debug, Clone)]
pub struct ContributionSummary {
    pub contributors: Vec<ContributorStats>,
    pub activity_by_contributor: Vec<ContributorActivityStats>,
    pub total_commits: u64,
}

/// Commit counts per hour (24), per weekday (7, Monday first) and per weekday and hour.
#[derive(Debug, Clone)]
pub struct ActivitySummary {
    pub by_hour: Vec<u32>,
    pub by_weekday: Vec<u32>,
    pub heatmap: Vec<Vec<u32>>,
}

impl ActivitySummary {
    /// The shape of the histograms: 24 hours, 7 weekdays, 7 rows of 24 hours.
    pub open spec fn wf(&self) -> bool {
        &&& self.by_hour.len() == 24
        &&& self.by_weekday.len() == 7
        &&& self.heatmap.len() == 7
        &&& forall|w: int| 0 <= w < 7 ==> (#[trigger] self.heatmap[w]).len() == 24
    }
}

/// `n` zeros.
pub fn zeros(n: usize) -> (v: Vec<u32>)
    ensures
        v.len() == n,
        forall|i: int| 0 <= i < n ==> v[i] == 0,
{
    let mut v: Vec<u32> = Vec::new();
    let mut i: usize = 0;
    while i < n
        invariant
            i <= n,
            v.len() == i,
            forall|j: int| 0 <= j < i ==> v[j] == 0,
        decreases n - i,
    {
        v.push(0);
        i = i + 1;
    }
    v
}

/// `rows` rows of `cols` zeros.
pub fn zero_grid(rows: usize, cols: usize) -> (g: Vec<Vec<u32>>)
    ensures
        g.len() == rows,
        forall|r: int| 0 <= r < rows ==> (#[trigger] g[r]).len() == cols,
        forall|r: int, c: int| 0 <= r < rows && 0 <= c < cols ==> #[trigger] g[r][c] == 0,
{
    let mut g: Vec<Vec<u32>> = Vec::new();
    let mut i: usize = 0;
    while i < rows
        invariant
            i <= rows,
            g.len() == i,
            forall|r: int| 0 <= r < i ==> (#[trigger] g[r]).len() == cols,
            forall|r: int, c: int| 0 <= r < i && 0 <= c < cols ==> #[trigger] g[r][c] == 0,
        decreases rows - i,
    {
        g.push(zeros(cols));
        i = i + 1;
    }
    g
}

impl Default for ActivitySummary {
    fn default() -> (r: Self)
        ensures
            r.wf(),
            forall|h: int| 0 <= h < 24 ==> r.by_hour[h] == 0,
            forall|w: int| 0 <= w < 7 ==> r.by_weekday[w] == 0,
            forall|w: int, h: int| 0 <= w < 7 && 0 <= h < 24 ==> #[trigger] r.heatmap[w][h] == 0,
    {
        ActivitySummary { by_hour: zeros(24), by_weekday: zeros(7), heatmap: zero_grid(7, 24) }
    }
}

/// One file of a size report.
#[derive(Debug, Clone)]
pub struct FileMetric {
    pub path: String,
    pub bytes: u64,
    pub lines: u64,
}

/// Size metrics of a repository's working tree.
///
/// The average file size is not held: it is `total_bytes / files`, a ratio that the reports
/// that show it compute.
#[derive(Debug, Clone)]
pub struct SizeMetrics {
    pub files: u64,
    pub directories: u64,
    pub total_bytes: u64,
    pub total_lines: u64,
    pub non_empty_lines: u64,
    pub blank_lines: u64,
    /// Files per extension; each extension occurs once.
    pub by_extension: Vec<(String, u64)>,
    pub largest_files: Vec<FileMetric>,
}

impl Default for SizeMetrics {
    fn default() -> (r: Self)
        ensures
            r.files == 0 && r.directories == 0 && r.total_bytes == 0,
            r.total_lines == 0 && r.non_empty_lines == 0 && r.blank_lines == 0,
            r.by_extension@.len() == 0,
            r.largest_files@.len() == 0,
    {
        SizeMetrics {
            files: 0,
            directories: 0,
            total_bytes: 0,
            total_lines: 0,
            non_empty_lines: 0,
            blank_lines: 0,
            by_extension: Vec::new(),
            largest_files: Vec::new(),
        }
    }
}

/// Everything found in one repository.
#[derive(Debug, Clone)]
pub struct RepositoryAnalysis {
    pub repository: RepositoryTarget,
    pub contributions: ContributionSummary,
    pub activity: ActivitySummary,
    pub size: SizeMetrics,
}

/// The analyses of several repositories, their totals, the paths that failed, and the
/// commit trends over all of them.
#[derive(Debug, Clone)]
pub struct ComparisonReport {
    pub repositories: Vec<RepositoryAnalysis>,
    pub summary: ComparisonSummary,
    pub failures: Vec<PartialFailure>,
    pub trends: TrendsData,
}

/// Totals over all analysed repositories.
#[derive(Debug, Clone)]
pub struct ComparisonSummary {
    pub total_contributors: u64,
    pub total_commits: u64,
    pub total_lines_changed: u64,
    pub total_files: u64,
}

/// A path that could not be analysed, and why.
#[derive(Debug, Clone)]
pub struct PartialFailure {
    pub path: String,
    pub reason: String,
}

pub const HEATMAP_MAX_WEEKS: usize = 53;

pub const DAYS_IN_WEEK: usize = 7;

/// A year of daily commit counts laid out as weekday rows and week columns.
#[derive(Debug, Clone)]
pub struct HeatmapData {
    pub start_date: String,
    pub end_date: String,
    pub grid: Vec<Vec<u32>>,
    pub week_count: usize,
    pub max_count: u32,
    pub month_labels: Vec<(usize, String)>,
}

/// `lo` alone when the range has one value, else `lo-hi`.
pub open spec fn range_label(lo: nat, hi: nat) -> Seq<char> {
    if lo == hi {
        nat_digits(lo)
    } else {
        nat_digits(lo) + seq!['-'] + nat_digits(hi)
    }
}

/// The upper ends of the low, medium and high legend ranges for a maximum count `max`:
/// a quarter, a half and three quarters of `max` (rounded down), each at least one above
/// the previous range.
pub open spec fn legend_bounds(max: nat) -> (nat, nat, nat) {
    let low_hi = if max / 4 >= 1 { max / 4 } else { 1 };
    let med_hi = if max / 2 >= low_hi + 1 { max / 2 } else { low_hi + 1 };
    let high_hi = if (3 * max) / 4 >= med_hi + 1 { (3 * max) / 4 } else { med_hi + 1 };
    (low_hi, med_hi, high_hi)
}

/// The smaller of `a` and `b`.
pub open spec fn min_nat(a: nat, b: nat) -> nat {
    if a <= b { a } else { b }
}

/// The range `lo..=hi` cut off at `max`, so that no label names a count above the maximum.
pub open spec fn capped_label(lo: nat, hi: nat, max: nat) -> Seq<char> {
    range_label(min_nat(lo, max), min_nat(hi, max))
}

/// The five legend labels: none, low, medium, high and maximum. With a maximum below 4
/// the upper levels share the top counts (for a maximum of 1 every non-zero level is `1`).
pub open spec fn spec_legend_labels(max: nat) -> Seq<Seq<char>> {
    if max == 0 {
        seq![seq!['0'], seq!['0'], seq!['0'], seq!['0'], seq!['0']]
    } else {
        let (low_hi, med_hi, high_hi) = legend_bounds(max);
        seq![
            seq!['0'],
            capped_label(1, low_hi, max),
            capped_label(low_hi + 1, med_hi, max),
            capped_label(med_hi + 1, high_hi, max),
            capped_label(high_hi + 1, max, max),
        ]
    }
}

fn range_label_exec(lo: u32, hi: u32) -> (s: String)
    ensures
        s@ == range_label(lo as nat, hi as nat),
{
    let mut v: Vec<char> = Vec::new();
    push_u64_digits(&mut v, lo as u64);
    if lo != hi {
        v.push('-');
        push_u64_digits(&mut v, hi as u64);
    }
    assert(v@ =~= range_label(lo as nat, hi as nat));
    string_from_chars(&v)
}

fn zero_label() -> (s: String)
    ensures
        s@ == seq!['0'],
{
    let mut v: Vec<char> = Vec::new();
    v.push('0');
    assert(v@ =~= seq!['0']);
    string_from_chars(&v)
}

impl HeatmapData {
    /// Returns 5 legend labels showing the commit-count range for each intensity level.
    /// Order: None, Low, Medium, High, Maximum.
    pub fn legend_labels(&self) -> (r: [String; 5])
        ensures
            forall|i: int| 0 <= i < 5 ==> #[trigger] r[i]@ == spec_legend_labels(self.max_count as nat)[i],
    {
        let max = self.max_count;
        if max == 0 {
            return [zero_label(), zero_label(), zero_label(), zero_label(), zero_label()];
        }
        let t1 = max / 4;
        let t2 = max / 2;
        let t3 = ((max as u64 * 3) / 4) as u32;
        let low_hi = if t1 >= 1 { t1 } else { 1 };
        let med_lo = low_hi + 1;
        let med_hi = if t2 >= med_lo { t2 } else { med_lo };
        let high_lo = med_hi + 1;
        let high_hi = if t3 >= high_lo { t3 } else { high_lo };
        let max_lo = high_hi + 1;
        let r = [
            zero_label(),
            range_label_exec(if 1 <= max { 1 } else { max }, if low_hi <= max { low_hi } else { max }),
            range_label_exec(if med_lo <= max { med_lo } else { max }, if med_hi <= max { med_hi } else { max }),
            range_label_exec(if high_lo <= max { high_lo } else { max }, if high_hi <= max { high_hi } else { max }),
            range_label_exec(if max_lo <= max { max_lo } else { max }, max),
        ];
        r
    }
}

/// The counts `(lo, hi)` that legend entry `i` (1 to 4) covers.
pub open spec fn legend_range(max: nat, i: int) -> (nat, nat) {
    let (a, b, c) = legend_bounds(max);
    if i == 1 {
        (min_nat(1, max), min_nat(a, max))
    } else if i == 2 {
        (min_nat(a + 1, max), min_nat(b, max))
    } else if i == 3 {
        (min_nat(b + 1, max), min_nat(c, max))
    } else {
        (min_nat(c + 1, max), max)
    }
}

/// No legend label names a count above the maximum, and no range runs backwards: for a
/// positive maximum, entry `i` (1 to 4) is the range `lo..=hi` with `1 <= lo <= hi <= max`.
pub proof fn lemma_legend_labels_within_max(max: nat)
    requires
        max > 0,
    ensures
        forall|i: int| 1 <= i < 5 ==> {
            let (lo, hi) = #[trigger] legend_range(max, i);
            &&& 1 <= lo <= hi <= max
            &&& spec_legend_labels(max)[i] == range_label(lo, hi)
        },
{
}

/// For a maximum of at least 4 the low, medium, high and maximum ranges are non-empty,
/// consecutive, and together cover `1..=max`.
pub proof fn lemma_legend_ranges_partition(max: nat)
    requires
        max >= 4,
    ensures
        1 <= legend_bounds(max).0,
        legend_bounds(max).0 < legend_bounds(max).1,
        legend_bounds(max).1 < legend_bounds(max).2,
        legend_bounds(max).2 < max,
{
}

} // verus!
