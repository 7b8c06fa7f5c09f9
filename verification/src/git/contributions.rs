//! Per-contributor statistics aggregated from parsed commits.
use vstd::prelude::*;

use crate::git::activity::{
    bump, commit_hw, count_hour, count_weekday, lemma_count_step, lemma_counts_bounded,
    parse_hour_and_weekday,
};
use crate::error::RepolyzeError;
use crate::git::parse::{CommitView, FileChangeView, ParsedCommit, commit_views, parse_git_log, spec_parse_git_log};
use crate::model::{ContributionSummary, ContributorActivityStats, ContributorStats, zeros};
use crate::text::{
    find_char, find_char_in, insert_string, lemma_find_char_props, lemma_seq_lt_asymmetric,
    lemma_seq_lt_total, lemma_seq_lt_transitive, lowercase, nat_digits,
    push_range, push_u64_digits, seq_lt, str_chars, str_lt, string_from_chars, string_views,
    to_lowercase, ascending, sort_strings,
};

verus! {

broadcast use vstd::string::group_string_axioms;

// ---------------------------------------------------------------------------
// What is counted
// ---------------------------------------------------------------------------

/// Commits are grouped by their author email, lowercased.
pub open spec fn email_key(c: CommitView) -> Seq<char> {
    lowercase(c.author_email)
}

/// The commits whose lowercased author email is `key`, in order.
pub open spec fn commits_of(cs: Seq<CommitView>, key: Seq<char>) -> Seq<CommitView>
    decreases cs.len(),
{
    if cs.len() == 0 {
        Seq::empty()
    } else {
        let p = commits_of(cs.drop_last(), key);
        if email_key(cs.last()) == key {
            p.push(cs.last())
        } else {
            p
        }
    }
}

/// The distinct keys, in the order in which they first occur.
pub open spec fn keys_in_order(cs: Seq<CommitView>) -> Seq<Seq<char>>
    decreases cs.len(),
{
    if cs.len() == 0 {
        Seq::empty()
    } else {
        let k = keys_in_order(cs.drop_last());
        if k.contains(email_key(cs.last())) {
            k
        } else {
            k.push(email_key(cs.last()))
        }
    }
}

/// Lines added by the file changes of one commit.
pub open spec fn change_additions(fs: Seq<FileChangeView>) -> nat
    decreases fs.len(),
{
    if fs.len() == 0 {
        0
    } else {
        change_additions(fs.drop_last()) + fs.last().additions as nat
    }
}

/// Lines deleted by the file changes of one commit.
pub open spec fn change_deletions(fs: Seq<FileChangeView>) -> nat
    decreases fs.len(),
{
    if fs.len() == 0 {
        0
    } else {
        change_deletions(fs.drop_last()) + fs.last().deletions as nat
    }
}

/// Lines added over a sequence of commits.
pub open spec fn total_additions(cs: Seq<CommitView>) -> nat
    decreases cs.len(),
{
    if cs.len() == 0 {
        0
    } else {
        total_additions(cs.drop_last()) + change_additions(cs.last().file_changes)
    }
}

/// Lines deleted over a sequence of commits.
pub open spec fn total_deletions(cs: Seq<CommitView>) -> nat
    decreases cs.len(),
{
    if cs.len() == 0 {
        0
    } else {
        total_deletions(cs.drop_last()) + change_deletions(cs.last().file_changes)
    }
}

/// The paths changed by one commit.
pub open spec fn change_paths(fs: Seq<FileChangeView>) -> Set<Seq<char>> {
    fs.map_values(|f: FileChangeView| f.path).to_set()
}

/// The distinct paths changed by a sequence of commits.
pub open spec fn paths_of(cs: Seq<CommitView>) -> Set<Seq<char>>
    decreases cs.len(),
{
    if cs.len() == 0 {
        Set::empty()
    } else {
        paths_of(cs.drop_last()).union(change_paths(cs.last().file_changes))
    }
}

/// The date of a timestamp: the text before its first `T` (all of it when there is none).
pub open spec fn date_of(ts: Seq<char>) -> Seq<char> {
    match find_char(ts, 'T') {
        Some(t) => ts.take(t),
        None => ts,
    }
}

/// The distinct non-empty dates of a sequence of commits.
pub open spec fn dates_of(cs: Seq<CommitView>) -> Set<Seq<char>>
    decreases cs.len(),
{
    if cs.len() == 0 {
        Set::empty()
    } else {
        let d = date_of(cs.last().timestamp);
        if d.len() > 0 {
            dates_of(cs.drop_last()).insert(d)
        } else {
            dates_of(cs.drop_last())
        }
    }
}

/// The number of commits on date `d`.
pub open spec fn commits_on(cs: Seq<CommitView>, d: Seq<char>) -> nat
    decreases cs.len(),
{
    if cs.len() == 0 {
        0
    } else {
        commits_on(cs.drop_last(), d) + if date_of(cs.last().timestamp) == d {
            1nat
        } else {
            0nat
        }
    }
}

/// The dates of the commits with a readable timestamp on weekday `w`.
pub open spec fn dates_on_weekday(cs: Seq<CommitView>, w: int) -> Set<Seq<char>>
    decreases cs.len(),
{
    if cs.len() == 0 {
        Set::empty()
    } else {
        let prev = dates_on_weekday(cs.drop_last(), w);
        match commit_hw(cs.last()) {
            Some(p) => if p.1 as int == w {
                prev.insert(date_of(cs.last().timestamp))
            } else {
                prev
            },
            None => prev,
        }
    }
}

/// The `date:hour` bucket of a commit with a readable timestamp.
pub open spec fn bucket_of(ts: Seq<char>, hour: usize) -> Seq<char> {
    date_of(ts) + seq![':'] + nat_digits(hour as nat)
}

/// The distinct `date:hour` buckets of the commits with a readable timestamp (at hour `h`
/// only, when `h` is given).
pub open spec fn buckets_of(cs: Seq<CommitView>, h: Option<int>) -> Set<Seq<char>>
    decreases cs.len(),
{
    if cs.len() == 0 {
        Set::empty()
    } else {
        let prev = buckets_of(cs.drop_last(), h);
        match commit_hw(cs.last()) {
            Some(p) => if h is None || h == Some(p.0 as int) {
                prev.insert(bucket_of(cs.last().timestamp, p.0))
            } else {
                prev
            },
            None => prev,
        }
    }
}

/// The least timestamp (empty for no commits).
pub open spec fn ts_min(cs: Seq<CommitView>) -> Seq<char>
    decreases cs.len(),
{
    if cs.len() == 0 {
        Seq::empty()
    } else if cs.len() == 1 {
        cs[0].timestamp
    } else {
        let m = ts_min(cs.drop_last());
        if seq_lt(cs.last().timestamp, m) {
            cs.last().timestamp
        } else {
            m
        }
    }
}

/// The greatest timestamp (empty for no commits).
pub open spec fn ts_max(cs: Seq<CommitView>) -> Seq<char>
    decreases cs.len(),
{
    if cs.len() == 0 {
        Seq::empty()
    } else if cs.len() == 1 {
        cs[0].timestamp
    } else {
        let m = ts_max(cs.drop_last());
        if seq_lt(m, cs.last().timestamp) {
            cs.last().timestamp
        } else {
            m
        }
    }
}

// ---------------------------------------------------------------------------
// Accumulating one contributor
// ---------------------------------------------------------------------------

struct ContributorAccumulator {
    key: String,
    name: String,
    commits: u64,
    lines_added: u64,
    lines_deleted: u64,
    files: Vec<String>,
    date_counts: Vec<(String, u32)>,
    first: String,
    last: String,
    weekday_commits: Vec<u32>,
    hour_commits: Vec<u32>,
    dates_by_weekday: Vec<Vec<String>>,
    buckets: Vec<String>,
    buckets_by_hour: Vec<Vec<String>>,
}

/// The dates of a list of date counts.
pub open spec fn count_keys(v: Seq<(String, u32)>) -> Seq<Seq<char>> {
    v.map_values(|p: (String, u32)| p.0@)
}

/// `date_counts` holds each date of `sub` once, with its number of commits.
pub open spec fn date_counts_ok(v: Seq<(String, u32)>, sub: Seq<CommitView>) -> bool {
    &&& count_keys(v).no_duplicates()
    &&& count_keys(v).to_set() == dates_of(sub)
    &&& forall|i: int| 0 <= i < v.len() ==> (#[trigger] v[i]).1 as nat == commits_on(sub, v[i].0@)
}

/// `v` holds each element of `s` once.
pub open spec fn holds_set(v: Seq<String>, s: Set<Seq<char>>) -> bool {
    string_views(v).no_duplicates() && string_views(v).to_set() == s
}

impl ContributorAccumulator {
    /// The accumulator holds the facts of `sub`, the commits (so far) of the contributor
    /// with key `key`, whose first commit had author name `name`.
    spec fn holds(&self, key: Seq<char>, name: Seq<char>, sub: Seq<CommitView>) -> bool {
        &&& self.key@ == key
        &&& self.name@ == name
        &&& self.commits == sub.len()
        &&& self.lines_added == total_additions(sub)
        &&& self.lines_deleted == total_deletions(sub)
        &&& holds_set(self.files@, paths_of(sub))
        &&& date_counts_ok(self.date_counts@, sub)
        &&& self.first@ == ts_min(sub)
        &&& self.last@ == ts_max(sub)
        &&& self.weekday_commits.len() == 7
        &&& self.hour_commits.len() == 24
        &&& forall|w: int| 0 <= w < 7 ==> #[trigger] self.weekday_commits[w] == count_weekday(sub, w)
        &&& forall|h: int| 0 <= h < 24 ==> #[trigger] self.hour_commits[h] == count_hour(sub, h)
        &&& self.dates_by_weekday.len() == 7
        &&& forall|w: int| 0 <= w < 7 ==> holds_set(#[trigger] self.dates_by_weekday[w]@, dates_on_weekday(sub, w))
        &&& holds_set(self.buckets@, buckets_of(sub, None))
        &&& self.buckets_by_hour.len() == 24
        &&& forall|h: int| 0 <= h < 24 ==> holds_set(#[trigger] self.buckets_by_hour[h]@, buckets_of(sub, Some(h)))
    }
}

/// How the facts of a contributor change with one more commit.
proof fn lemma_sub_step(sub: Seq<CommitView>, c: CommitView)
    ensures
        total_additions(sub.push(c)) == total_additions(sub) + change_additions(c.file_changes),
        total_deletions(sub.push(c)) == total_deletions(sub) + change_deletions(c.file_changes),
        paths_of(sub.push(c)) == paths_of(sub).union(change_paths(c.file_changes)),
        dates_of(sub.push(c)) == if date_of(c.timestamp).len() > 0 {
            dates_of(sub).insert(date_of(c.timestamp))
        } else {
            dates_of(sub)
        },
        forall|d: Seq<char>| #[trigger] commits_on(sub.push(c), d) == commits_on(sub, d) + if date_of(c.timestamp) == d {
            1nat
        } else {
            0nat
        },
        forall|w: int| #[trigger] dates_on_weekday(sub.push(c), w) == match commit_hw(c) {
            Some(p) => if p.1 as int == w {
                dates_on_weekday(sub, w).insert(date_of(c.timestamp))
            } else {
                dates_on_weekday(sub, w)
            },
            None => dates_on_weekday(sub, w),
        },
        forall|h: Option<int>| #[trigger] buckets_of(sub.push(c), h) == match commit_hw(c) {
            Some(p) => if h is None || h == Some(p.0 as int) {
                buckets_of(sub, h).insert(bucket_of(c.timestamp, p.0))
            } else {
                buckets_of(sub, h)
            },
            None => buckets_of(sub, h),
        },
        ts_min(sub.push(c)) == if sub.len() == 0 || seq_lt(c.timestamp, ts_min(sub)) {
            c.timestamp
        } else {
            ts_min(sub)
        },
        ts_max(sub.push(c)) == if sub.len() == 0 || seq_lt(ts_max(sub), c.timestamp) {
            c.timestamp
        } else {
            ts_max(sub)
        },
{
    assert(sub.push(c).drop_last() =~= sub);
    if sub.len() == 0 {
        assert(sub.push(c)[0] == c);
    }
}

/// The date of a timestamp.
pub(crate) fn date_prefix(ts: &String) -> (r: String)
    ensures
        r@ == date_of(ts@),
{
    let s = str_chars(ts.as_str());
    let n = s.len();
    assert(s@.subrange(0, n as int) =~= s@);
    match find_char_in(&s, 0, n, 'T') {
        Some(t) => {
            let mut v: Vec<char> = Vec::new();
            push_range(&mut v, &s, 0, t);
            assert(v@ =~= s@.take(t as int));
            string_from_chars(&v)
        },
        None => ts.clone(),
    }
}

/// The `date:hour` bucket text.
fn bucket_text(date: &String, hour: usize) -> (r: String)
    requires
        hour < 24,
    ensures
        r@ == date@ + seq![':'] + nat_digits(hour as nat),
{
    let mut v = str_chars(date.as_str());
    v.push(':');
    push_u64_digits(&mut v, hour as u64);
    string_from_chars(&v)
}

/// Adds a commit's file changes: lines added and deleted, and the changed paths.
fn add_changes(files: &mut Vec<String>, added: &mut u64, deleted: &mut u64, fcs: &Vec<crate::git::parse::FileChange>)
    requires
        string_views(old(files)@).no_duplicates(),
        *old(added) + change_additions(fcs@.map_values(|f: crate::git::parse::FileChange| f@)) <= u64::MAX,
        *old(deleted) + change_deletions(fcs@.map_values(|f: crate::git::parse::FileChange| f@)) <= u64::MAX,
    ensures
        string_views(final(files)@).no_duplicates(),
        string_views(final(files)@).to_set() == string_views(old(files)@).to_set().union(
            change_paths(fcs@.map_values(|f: crate::git::parse::FileChange| f@)),
        ),
        *final(added) == *old(added) + change_additions(fcs@.map_values(|f: crate::git::parse::FileChange| f@)),
        *final(deleted) == *old(deleted) + change_deletions(fcs@.map_values(|f: crate::git::parse::FileChange| f@)),
{
    let ghost fv = fcs@.map_values(|f: crate::git::parse::FileChange| f@);
    let mut j: usize = 0;
    while j < fcs.len()
        invariant
            j <= fcs.len(),
            fv == fcs@.map_values(|f: crate::git::parse::FileChange| f@),
            string_views(files@).no_duplicates(),
            string_views(files@).to_set() == string_views(old(files)@).to_set().union(change_paths(fv.take(j as int))),
            *added == *old(added) + change_additions(fv.take(j as int)),
            *deleted == *old(deleted) + change_deletions(fv.take(j as int)),
            *old(added) + change_additions(fv) <= u64::MAX,
            *old(deleted) + change_deletions(fv) <= u64::MAX,
        decreases fcs.len() - j,
    {
        assert(fv.take(j + 1).drop_last() =~= fv.take(j as int));
        assert(fv.take(j + 1).last() == fcs@[j as int]@);
        proof {
            lemma_change_sums_prefix(fv, j + 1);
        }
        *added = *added + fcs[j].additions;
        *deleted = *deleted + fcs[j].deletions;
        insert_string(files, fcs[j].path.clone());
        proof {
            let t = fv.take(j as int);
            assert(fv.take(j + 1) =~= t.push(fv[j as int]));
            t.lemma_push_map_commute(|f: FileChangeView| f.path, fv[j as int]);
            t.map_values(|f: FileChangeView| f.path).lemma_push_to_set_commute(fv[j as int].path);
            assert(change_paths(fv.take(j + 1)) =~= change_paths(t).insert(fv[j as int].path));
            assert(string_views(files@).to_set() =~= string_views(old(files)@).to_set().union(
                change_paths(fv.take(j + 1)),
            ));
        }
        j = j + 1;
    }
    assert(fv.take(fcs.len() as int) =~= fv);
}

proof fn lemma_change_sums_prefix(fv: Seq<FileChangeView>, k: int)
    requires
        0 <= k <= fv.len(),
    ensures
        change_additions(fv.take(k)) <= change_additions(fv),
        change_deletions(fv.take(k)) <= change_deletions(fv),
    decreases fv.len() - k,
{
    if k < fv.len() {
        lemma_change_sums_prefix(fv, k + 1);
        assert(fv.take(k + 1).drop_last() =~= fv.take(k));
    } else {
        assert(fv.take(k) =~= fv);
    }
}

proof fn lemma_commits_on_bounds(sub: Seq<CommitView>, d: Seq<char>)
    ensures
        commits_on(sub, d) <= sub.len(),
        d.len() > 0 && !dates_of(sub).contains(d) ==> commits_on(sub, d) == 0,
        d.len() == 0 ==> !dates_of(sub).contains(d),
    decreases sub.len(),
{
    if sub.len() > 0 {
        lemma_commits_on_bounds(sub.drop_last(), d);
    }
}

/// Counts one more commit on the non-empty date `c`'s date `d`.
fn add_date_count(v: &mut Vec<(String, u32)>, d: String, Ghost(sub): Ghost<Seq<CommitView>>, Ghost(c): Ghost<CommitView>)
    requires
        date_counts_ok(old(v)@, sub),
        d@ == date_of(c.timestamp),
        d@.len() > 0,
        sub.len() < u32::MAX,
    ensures
        date_counts_ok(final(v)@, sub.push(c)),
{
    proof {
        lemma_sub_step(sub, c);
    }
    let mut k: usize = 0;
    while k < v.len()
        invariant
            k <= v.len(),
            forall|j: int| 0 <= j < k ==> v@[j].0@ != d@,
        ensures
            k <= v.len(),
            forall|j: int| 0 <= j < k ==> v@[j].0@ != d@,
            k < v.len() ==> v@[k as int].0@ == d@,
        decreases v.len() - k,
    {
        if v[k].0 == d {
            break;
        }
        k = k + 1;
    }
    if k < v.len() {
        assert(v@[k as int].0@ == d@);
        proof {
            lemma_commits_on_bounds(sub, d@);
            assert(v@[k as int].1 as nat == commits_on(sub, d@));
        }
        let key = v[k].0.clone();
        let n = v[k].1 + 1;
        let ghost before = v@;
        v.set(k, (key, n));
        assert(count_keys(v@) =~= count_keys(before));
        assert(dates_of(sub.push(c)) =~= dates_of(sub)) by {
            assert(count_keys(before)[k as int] == d@);
        }
        assert forall|i: int| 0 <= i < v.len() implies (#[trigger] v@[i]).1 as nat == commits_on(sub.push(c), v@[i].0@) by {
            if i != k {
                assert(v@[i] == before[i]);
                assert(count_keys(before)[i] != count_keys(before)[k as int]);
            }
        }
    } else {
        proof {
            assert(!count_keys(v@).contains(d@)) by {
                if count_keys(v@).contains(d@) {
                    let j = choose|j: int| 0 <= j < count_keys(v@).len() && count_keys(v@)[j] == d@;
                    assert(v@[j].0@ == d@);
                }
            }
            lemma_commits_on_bounds(sub, d@);
        }
        let ghost before = v@;
        v.push((d, 1));
        assert(count_keys(v@) =~= count_keys(before).push(d@));
        proof {
            count_keys(before).lemma_push_to_set_commute(d@);
        }
        assert forall|i: int| 0 <= i < v.len() implies (#[trigger] v@[i]).1 as nat == commits_on(sub.push(c), v@[i].0@) by {
            if i < before.len() {
                assert(v@[i] == before[i]);
                assert(count_keys(before)[i] != d@) by {
                    assert(count_keys(before).contains(count_keys(before)[i]));
                }
            }
        }
    }
}

fn empty_sets(n: usize) -> (r: Vec<Vec<String>>)
    ensures
        r.len() == n,
        forall|i: int| 0 <= i < n ==> (#[trigger] r[i])@.len() == 0,
{
    let mut r: Vec<Vec<String>> = Vec::new();
    let mut i: usize = 0;
    while i < n
        invariant
            i <= n,
            r.len() == i,
            forall|j: int| 0 <= j < i ==> (#[trigger] r[j])@.len() == 0,
        decreases n - i,
    {
        r.push(Vec::new());
        i = i + 1;
    }
    r
}

proof fn lemma_empty_holds(v: Seq<String>)
    requires
        v.len() == 0,
    ensures
        holds_set(v, Set::empty()),
{
    assert(string_views(v) =~= Seq::<Seq<char>>::empty());
    assert(string_views(v).to_set() =~= Set::<Seq<char>>::empty());
}

impl ContributorAccumulator {
    /// An accumulator for the contributor `key`, before any commit.
    fn new(key: String, name: String) -> (a: Self)
        ensures
            a.holds(key@, name@, Seq::empty()),
    {
        let a = ContributorAccumulator {
            key,
            name,
            commits: 0,
            lines_added: 0,
            lines_deleted: 0,
            files: Vec::new(),
            date_counts: Vec::new(),
            first: String::new(),
            last: String::new(),
            weekday_commits: zeros(7),
            hour_commits: zeros(24),
            dates_by_weekday: empty_sets(7),
            buckets: Vec::new(),
            buckets_by_hour: empty_sets(24),
        };
        proof {
            let e = Seq::<CommitView>::empty();
            lemma_empty_holds(a.files@);
            lemma_empty_holds(a.buckets@);
            assert(count_keys(a.date_counts@) =~= Seq::<Seq<char>>::empty());
            assert(count_keys(a.date_counts@).to_set() =~= Set::<Seq<char>>::empty());
            assert forall|w: int| 0 <= w < 7 implies holds_set(#[trigger] a.dates_by_weekday[w]@, dates_on_weekday(e, w)) by {
                lemma_empty_holds(a.dates_by_weekday[w]@);
            }
            assert forall|h: int| 0 <= h < 24 implies holds_set(#[trigger] a.buckets_by_hour[h]@, buckets_of(e, Some(h))) by {
                lemma_empty_holds(a.buckets_by_hour[h]@);
            }
        }
        a
    }

    /// Adds one commit of this contributor.
    fn add(&mut self, c: &ParsedCommit, Ghost(key): Ghost<Seq<char>>, Ghost(name): Ghost<Seq<char>>, Ghost(sub): Ghost<Seq<CommitView>>)
        requires
            old(self).holds(key, name, sub),
            sub.len() < u32::MAX,
            total_additions(sub) + change_additions(c@.file_changes) <= u64::MAX,
            total_deletions(sub) + change_deletions(c@.file_changes) <= u64::MAX,
        ensures
            final(self).holds(key, name, sub.push(c@)),
    {
        let ghost cv = c@;
        proof {
            lemma_sub_step(sub, cv);
            lemma_count_step(sub, cv);
        }
        self.commits = self.commits + 1;
        add_changes(&mut self.files, &mut self.lines_added, &mut self.lines_deleted, &c.file_changes);
        let date = date_prefix(&c.timestamp);
        if !date.as_str().is_empty() {
            add_date_count(&mut self.date_counts, date.clone(), Ghost(sub), Ghost(cv));
        } else {
            proof {
                lemma_commits_on_bounds(sub, date@);
                assert forall|i: int| 0 <= i < self.date_counts@.len() implies (#[trigger] self.date_counts@[i]).1 as nat
                    == commits_on(sub.push(cv), self.date_counts@[i].0@) by {
                    assert(count_keys(self.date_counts@).contains(count_keys(self.date_counts@)[i]));
                    assert(dates_of(sub).contains(self.date_counts@[i].0@));
                    lemma_commits_on_bounds(sub, self.date_counts@[i].0@);
                }
            }
        }
        if self.commits == 1 || str_lt(c.timestamp.as_str(), self.first.as_str()) {
            self.first = c.timestamp.clone();
        }
        if self.commits == 1 || str_lt(self.last.as_str(), c.timestamp.as_str()) {
            self.last = c.timestamp.clone();
        }
        match parse_hour_and_weekday(c.timestamp.as_str()) {
            Some((hour, weekday)) => {
                proof {
                    lemma_counts_bounded(sub, weekday as int, hour as int);
                }
                bump(&mut self.weekday_commits, weekday);
                bump(&mut self.hour_commits, hour);
                let ghost wd_before = self.dates_by_weekday@;
                insert_string(&mut self.dates_by_weekday[weekday], date.clone());
                assert forall|w: int| 0 <= w < 7 implies holds_set(#[trigger] self.dates_by_weekday[w]@, dates_on_weekday(sub.push(cv), w)) by {
                    if w != weekday {
                        assert(self.dates_by_weekday[w] == wd_before[w]);
                    }
                }
                let b = bucket_text(&date, hour);
                insert_string(&mut self.buckets, b.clone());
                let ghost bh_before = self.buckets_by_hour@;
                insert_string(&mut self.buckets_by_hour[hour], b);
                assert forall|h: int| 0 <= h < 24 implies holds_set(#[trigger] self.buckets_by_hour[h]@, buckets_of(sub.push(cv), Some(h))) by {
                    if h != hour {
                        assert(self.buckets_by_hour[h] == bh_before[h]);
                    }
                }
            },
            None => {},
        }
    }
}

// ---------------------------------------------------------------------------
// Grouping commits by contributor
// ---------------------------------------------------------------------------

/// The author name of the first commit of `key`.
pub open spec fn first_name(cs: Seq<CommitView>, key: Seq<char>) -> Seq<char> {
    commits_of(cs, key)[0].author_name
}

proof fn lemma_keys_props(cs: Seq<CommitView>)
    ensures
        keys_in_order(cs).no_duplicates(),
        forall|key: Seq<char>| #[trigger] keys_in_order(cs).contains(key) <==> commits_of(cs, key).len() > 0,
        forall|key: Seq<char>| #[trigger] commits_of(cs, key).len() <= cs.len(),
    decreases cs.len(),
{
    if cs.len() > 0 {
        let p = cs.drop_last();
        lemma_keys_props(p);
        assert forall|key: Seq<char>| #[trigger] commits_of(cs, key).len() <= cs.len() by {
            assert(commits_of(p, key).len() <= p.len());
        }
        let k = keys_in_order(p);
        if !k.contains(email_key(cs.last())) {
            assert forall|key: Seq<char>| #[trigger] keys_in_order(cs).contains(key) <==> k.contains(key) || key == email_key(cs.last()) by {
                if keys_in_order(cs).contains(key) {
                    let j = choose|j: int| 0 <= j < keys_in_order(cs).len() && keys_in_order(cs)[j] == key;
                    if j < k.len() {
                        assert(k[j] == key);
                    }
                }
                if k.contains(key) {
                    let j = choose|j: int| 0 <= j < k.len() && k[j] == key;
                    assert(keys_in_order(cs)[j] == key);
                }
                if key == email_key(cs.last()) {
                    assert(keys_in_order(cs)[k.len() as int] == key);
                }
            }
        }
    }
}

proof fn lemma_sub_sums(cs: Seq<CommitView>, key: Seq<char>)
    ensures
        total_additions(commits_of(cs, key)) <= total_additions(cs),
        total_deletions(commits_of(cs, key)) <= total_deletions(cs),
    decreases cs.len(),
{
    if cs.len() > 0 {
        lemma_sub_sums(cs.drop_last(), key);
        let p = commits_of(cs.drop_last(), key);
        if email_key(cs.last()) == key {
            assert(p.push(cs.last()).drop_last() =~= p);
        }
    }
}

proof fn lemma_prefix_sums(cs: Seq<CommitView>, k: int)
    requires
        0 <= k <= cs.len(),
    ensures
        total_additions(cs.take(k)) <= total_additions(cs),
        total_deletions(cs.take(k)) <= total_deletions(cs),
    decreases cs.len() - k,
{
    if k < cs.len() {
        lemma_prefix_sums(cs, k + 1);
        assert(cs.take(k + 1).drop_last() =~= cs.take(k));
    } else {
        assert(cs.take(k) =~= cs);
    }
}

/// One accumulator per contributor, in order of first commit.
fn accumulate(commits: &Vec<ParsedCommit>) -> (accs: Vec<ContributorAccumulator>)
    requires
        commits.len() < u32::MAX,
        total_additions(commit_views(commits@)) <= u64::MAX,
        total_deletions(commit_views(commits@)) <= u64::MAX,
    ensures
        accs.len() == keys_in_order(commit_views(commits@)).len(),
        forall|j: int| 0 <= j < accs.len() ==> (#[trigger] accs[j]).holds(
            keys_in_order(commit_views(commits@))[j],
            first_name(commit_views(commits@), keys_in_order(commit_views(commits@))[j]),
            commits_of(commit_views(commits@), keys_in_order(commit_views(commits@))[j]),
        ),
{
    let ghost cs = commit_views(commits@);
    let mut accs: Vec<ContributorAccumulator> = Vec::new();
    let mut i: usize = 0;
    while i < commits.len()
        invariant
            i <= commits.len() < u32::MAX,
            cs == commit_views(commits@),
            total_additions(cs) <= u64::MAX,
            total_deletions(cs) <= u64::MAX,
            accs.len() == keys_in_order(cs.take(i as int)).len(),
            forall|j: int| 0 <= j < accs.len() ==> (#[trigger] accs[j]).holds(
                keys_in_order(cs.take(i as int))[j],
                first_name(cs.take(i as int), keys_in_order(cs.take(i as int))[j]),
                commits_of(cs.take(i as int), keys_in_order(cs.take(i as int))[j]),
            ),
        decreases commits.len() - i,
    {
        let ghost p = cs.take(i as int);
        let ghost c = commits@[i as int]@;
        let ghost q = cs.take(i + 1);
        assert(q =~= p.push(c));
        assert(q.drop_last() =~= p);
        proof {
            lemma_keys_props(p);
            lemma_keys_props(q);
            lemma_prefix_sums(cs, i + 1);
        }
        let key = to_lowercase(commits[i].author_email.as_str());
        assert(key@ == email_key(c));
        let mut j: usize = 0;
        while j < accs.len()
            invariant
                j <= accs.len(),
                forall|t: int| 0 <= t < j ==> accs[t].key@ != key@,
            ensures
                j <= accs.len(),
                forall|t: int| 0 <= t < j ==> accs[t].key@ != key@,
                j < accs.len() ==> accs[j as int].key@ == key@,
            decreases accs.len() - j,
        {
            if accs[j].key == key {
                break;
            }
            j = j + 1;
        }
        let ghost keys = keys_in_order(p);
        if j == accs.len() {
            assert(!keys.contains(key@)) by {
                if keys.contains(key@) {
                    let t = choose|t: int| 0 <= t < keys.len() && keys[t] == key@;
                    assert(accs[t].key@ == key@);
                }
            }
            assert(keys_in_order(q) == keys.push(key@));
            assert(commits_of(p, key@).len() == 0);
            assert(commits_of(p, key@) =~= Seq::<CommitView>::empty());
            let acc = ContributorAccumulator::new(key, commits[i].author_name.clone());
            accs.push(acc);
        }
        let ghost keys2 = keys_in_order(q);
        assert(keys2[j as int] == key@);
        let ghost sub = commits_of(p, key@);
        proof {
            lemma_sub_sums(q, key@);
            assert(commits_of(q, key@) == sub.push(c));
            lemma_sub_step(sub, c);
        }
        let ghost accs_before = accs@;
        accs[j].add(&commits[i], Ghost(key@), Ghost(first_name(q, key@)), Ghost(sub));
        proof {
            assert forall|t: int| 0 <= t < accs.len() implies (#[trigger] accs[t]).holds(
                keys2[t],
                first_name(q, keys2[t]),
                commits_of(q, keys2[t]),
            ) by {
                if t != j {
                    assert(accs[t] == accs_before[t]);
                    assert(keys2[t] != keys2[j as int]);
                    assert(commits_of(q, keys2[t]) == commits_of(p, keys2[t]));
                    assert(keys2[t] == keys[t]);
                }
            }
        }
        i = i + 1;
    }
    assert(cs.take(commits.len() as int) =~= cs);
    accs
}

/// The activity of the commits whose lowercased author email is `key`, with their number of
/// distinct dates and their least and greatest timestamps.
pub(crate) fn activity_of_key(commits: &Vec<ParsedCommit>, key: String) -> (r: (ContributorActivityStats, u64, String, String))
    requires
        commits.len() < u32::MAX,
        total_additions(commit_views(commits@)) <= u64::MAX,
        total_deletions(commit_views(commits@)) <= u64::MAX,
    ensures
        activity_for(r.0, commit_views(commits@), key@),
        r.1 == dates_of(commits_of(commit_views(commits@), key@)).len(),
        r.2@ == ts_min(commits_of(commit_views(commits@), key@)),
        r.3@ == ts_max(commits_of(commit_views(commits@), key@)),
{
    let ghost cs = commit_views(commits@);
    let ghost k = key@;
    let mut acc = ContributorAccumulator::new(key, String::new());
    let mut i: usize = 0;
    while i < commits.len()
        invariant
            i <= commits.len() < u32::MAX,
            cs == commit_views(commits@),
            total_additions(cs) <= u64::MAX,
            total_deletions(cs) <= u64::MAX,
            acc.holds(k, Seq::empty(), commits_of(cs.take(i as int), k)),
        decreases commits.len() - i,
    {
        let ghost p = cs.take(i as int);
        let ghost c = commits@[i as int]@;
        let ghost q = cs.take(i + 1);
        assert(q =~= p.push(c));
        assert(q.drop_last() =~= p);
        let email = to_lowercase(commits[i].author_email.as_str());
        assert(email@ == email_key(c));
        if email == acc.key {
            proof {
                lemma_keys_props(p);
                lemma_prefix_sums(cs, i + 1);
                lemma_sub_sums(q, k);
                assert(commits_of(q, k) == commits_of(p, k).push(c));
                lemma_sub_step(commits_of(p, k), c);
            }
            acc.add(&commits[i], Ghost(k), Ghost(Seq::empty()), Ghost(commits_of(p, k)));
        } else {
            assert(commits_of(q, k) == commits_of(p, k));
        }
        i = i + 1;
    }
    assert(cs.take(commits.len() as int) =~= cs);
    proof {
        count_keys(acc.date_counts@).unique_seq_to_set();
    }
    let ghost sub = commits_of(cs, k);
    let date_counts = sort_date_counts(acc.date_counts);
    proof {
        assert forall|i: int| 0 <= i < date_counts.len() implies (#[trigger] date_counts@[i]).1 as nat
            == commits_on(sub, date_counts@[i].0@) by {
            assert(acc.date_counts@.contains(date_counts@[i]));
            let j = choose|j: int| 0 <= j < acc.date_counts.len() && acc.date_counts@[j] == date_counts@[i];
        }
        count_keys(date_counts@).unique_seq_to_set();
    }
    let active_dates = date_keys(&date_counts);
    let dates_by_weekday = sort_each(acc.dates_by_weekday, Ghost(Seq::new(7, |w: int| dates_on_weekday(sub, w))));
    let buckets = sort_strings(acc.buckets);
    let buckets_by_hour = sort_each(acc.buckets_by_hour, Ghost(Seq::new(24, |h: int| buckets_of(sub, Some(h)))));
    let days = date_counts.len() as u64;
    let activity = ContributorActivityStats {
        email: acc.key,
        weekday_commits: acc.weekday_commits,
        hour_commits: acc.hour_commits,
        active_dates,
        active_dates_by_weekday: dates_by_weekday,
        active_hour_buckets: buckets,
        active_hour_buckets_by_hour: buckets_by_hour,
        commits_by_date: date_counts,
    };
    (activity, days, acc.first, acc.last)
}

// ---------------------------------------------------------------------------
// The summary
// ---------------------------------------------------------------------------

/// `s` is the statistics of the contributor `key` among the commits `cs`.
pub open spec fn stats_for(s: ContributorStats, cs: Seq<CommitView>, key: Seq<char>) -> bool {
    let sub = commits_of(cs, key);
    &&& s.email@ == key
    &&& s.name@ == first_name(cs, key)
    &&& s.commits == sub.len()
    &&& s.lines_added == total_additions(sub)
    &&& s.lines_deleted == total_deletions(sub)
    &&& s.net_lines == total_additions(sub) - total_deletions(sub)
    &&& s.files_touched == paths_of(sub).len()
    &&& s.file_extensions@.len() == 0
    &&& s.wf()
    &&& s.active_days == dates_of(sub).len()
    &&& s.first_commit@ == ts_min(sub)
    &&& s.last_commit@ == ts_max(sub)
}

/// `a` is the activity of the contributor `key` among the commits `cs`.
pub open spec fn activity_for(a: ContributorActivityStats, cs: Seq<CommitView>, key: Seq<char>) -> bool {
    let sub = commits_of(cs, key);
    &&& a.email@ == key
    &&& a.wf()
    &&& forall|w: int| 0 <= w < 7 ==> #[trigger] a.weekday_commits[w] == count_weekday(sub, w)
    &&& forall|h: int| 0 <= h < 24 ==> #[trigger] a.hour_commits[h] == count_hour(sub, h)
    &&& holds_set(a.active_dates@, dates_of(sub))
    &&& forall|w: int| 0 <= w < 7 ==> holds_set(#[trigger] a.active_dates_by_weekday[w]@, dates_on_weekday(sub, w))
    &&& holds_set(a.active_hour_buckets@, buckets_of(sub, None))
    &&& forall|h: int| 0 <= h < 24 ==> holds_set(#[trigger] a.active_hour_buckets_by_hour[h]@, buckets_of(sub, Some(h)))
    &&& date_counts_ok(a.commits_by_date@, sub)
}

pub open spec fn stats_emails(v: Seq<ContributorStats>) -> Seq<Seq<char>> {
    v.map_values(|c: ContributorStats| c.email@)
}

pub open spec fn activity_emails(v: Seq<ContributorActivityStats>) -> Seq<Seq<char>> {
    v.map_values(|c: ContributorActivityStats| c.email@)
}

/// Sum of a sequence of counts.
pub open spec fn sum_counts(s: Seq<u32>) -> int
    decreases s.len(),
{
    if s.len() == 0 {
        0
    } else {
        sum_counts(s.drop_last()) + s.last()
    }
}

/// Activity rows are ordered by total commits, most first, then by email.
pub open spec fn activity_before(a: ContributorActivityStats, b: ContributorActivityStats) -> bool {
    ||| sum_counts(a.weekday_commits@) > sum_counts(b.weekday_commits@)
    ||| sum_counts(a.weekday_commits@) == sum_counts(b.weekday_commits@) && seq_lt(a.email@, b.email@)
}

pub(crate) proof fn lemma_insert_keys(s: Seq<Seq<char>>, pos: int, e: Seq<char>)
    requires
        0 <= pos <= s.len(),
    ensures
        s.insert(pos, e).to_set() == s.to_set().insert(e),
        s.no_duplicates() && !s.contains(e) ==> s.insert(pos, e).no_duplicates(),
{
    s.insert_ensures(pos, e);
    let t = s.insert(pos, e);
    assert forall|x: Seq<char>| #[trigger] t.to_set().contains(x) <==> s.to_set().insert(e).contains(x) by {
        if t.contains(x) {
            let j = choose|j: int| 0 <= j < t.len() && t[j] == x;
            if j < pos {
                assert(s[j] == x);
            } else if j > pos {
                assert(s[j - 1] == x);
            }
        }
        if s.contains(x) {
            let j = choose|j: int| 0 <= j < s.len() && s[j] == x;
            if j < pos {
                assert(t[j] == x);
            } else {
                assert(t[j + 1] == x);
            }
        }
        if x == e {
            assert(t[pos] == x);
        }
    }
    assert(t.to_set() =~= s.to_set().insert(e));
    if s.no_duplicates() && !s.contains(e) {
        assert forall|a: int, b: int| 0 <= a < t.len() && 0 <= b < t.len() && a != b implies t[a] != t[b] by {
            if a == pos {
                if b < pos {
                    assert(s.contains(s[b]));
                } else {
                    assert(s.contains(s[b - 1]));
                }
            } else if b == pos {
                if a < pos {
                    assert(s.contains(s[a]));
                } else {
                    assert(s.contains(s[a - 1]));
                }
            }
        }
    }
}

pub(crate) proof fn lemma_drop_first_keys(s: Seq<Seq<char>>)
    requires
        s.len() > 0,
        s.no_duplicates(),
    ensures
        s.drop_first().no_duplicates(),
        !s.drop_first().contains(s[0]),
        s.to_set() == s.drop_first().to_set().insert(s[0]),
{
    let d = s.drop_first();
    assert forall|x: Seq<char>| #[trigger] s.to_set().contains(x) <==> d.to_set().insert(s[0]).contains(x) by {
        if s.contains(x) {
            let j = choose|j: int| 0 <= j < s.len() && s[j] == x;
            if j > 0 {
                assert(d[j - 1] == x);
            }
        }
        if d.contains(x) {
            let j = choose|j: int| 0 <= j < d.len() && d[j] == x;
            assert(s[j + 1] == x);
        }
    }
    assert(s.to_set() =~= d.to_set().insert(s[0]));
    if d.contains(s[0]) {
        let j = choose|j: int| 0 <= j < d.len() && d[j] == s[0];
        assert(s[j + 1] == s[0]);
    }
}

/// Contributor statistics sorted by commits, most first.
fn sort_by_commits(v: Vec<ContributorStats>, Ghost(cs): Ghost<Seq<CommitView>>) -> (out: Vec<ContributorStats>)
    requires
        stats_emails(v@).no_duplicates(),
        forall|i: int| 0 <= i < v.len() ==> stats_for(#[trigger] v[i], cs, v[i].email@),
    ensures
        out.len() == v.len(),
        stats_emails(out@).no_duplicates(),
        stats_emails(out@).to_set() == stats_emails(v@).to_set(),
        forall|i: int| 0 <= i < out.len() ==> stats_for(#[trigger] out[i], cs, out[i].email@),
        forall|i: int, j: int| 0 <= i < j < out.len() ==> out[i].commits >= out[j].commits,
{
    let ghost all = stats_emails(v@).to_set();
    let mut rest = v;
    let mut out: Vec<ContributorStats> = Vec::new();
    assert(stats_emails(out@).to_set() =~= Set::<Seq<char>>::empty());
    while rest.len() > 0
        invariant
            out.len() + rest.len() == v.len(),
            stats_emails(out@).no_duplicates(),
            stats_emails(rest@).no_duplicates(),
            forall|e: Seq<char>| stats_emails(out@).contains(e) ==> !stats_emails(rest@).contains(e),
            stats_emails(out@).to_set().union(stats_emails(rest@).to_set()) == all,
            forall|i: int| 0 <= i < out.len() ==> stats_for(#[trigger] out[i], cs, out[i].email@),
            forall|i: int| 0 <= i < rest.len() ==> stats_for(#[trigger] rest[i], cs, rest[i].email@),
            forall|i: int, j: int| 0 <= i < j < out.len() ==> out[i].commits >= out[j].commits,
        decreases rest.len(),
    {
        let ghost rest_before = rest@;
        let ghost out_before = out@;
        proof {
            lemma_drop_first_keys(stats_emails(rest_before));
        }
        let x = rest.remove(0);
        assert(stats_emails(rest@) =~= stats_emails(rest_before).drop_first());
        assert(stats_emails(rest_before)[0] == x.email@);
        let mut pos: usize = 0;
        while pos < out.len() && out[pos].commits >= x.commits
            invariant
                pos <= out.len(),
                forall|t: int| 0 <= t < pos ==> out[t].commits >= x.commits,
            decreases out.len() - pos,
        {
            pos = pos + 1;
        }
        assert(!stats_emails(out_before).contains(x.email@)) by {
            assert(stats_emails(rest_before).contains(x.email@));
        }
        let ghost xv = x;
        out.insert(pos, x);
        proof {
            out_before.insert_ensures(pos as int, xv);
            assert(stats_emails(out@) =~= stats_emails(out_before).insert(pos as int, xv.email@));
            lemma_insert_keys(stats_emails(out_before), pos as int, xv.email@);
            assert forall|e: Seq<char>| stats_emails(out@).contains(e) implies !stats_emails(rest@).contains(e) by {
                assert(stats_emails(out@).to_set().contains(e));
            }
            assert(stats_emails(out@).to_set().union(stats_emails(rest@).to_set()) =~= all);
            assert forall|i: int, j: int| 0 <= i < j < out.len() implies out[i].commits >= out[j].commits by {
                if j < pos {
                } else if i > pos {
                } else if i == pos {
                    if pos < out_before.len() {
                        assert(out_before[pos as int].commits < xv.commits);
                    }
                } else {
                }
            }
        }
    }
    assert(stats_emails(rest@) =~= Seq::<Seq<char>>::empty());
    assert(stats_emails(out@).to_set() =~= all);
    out
}

fn weekday_total(a: &ContributorActivityStats) -> (t: u64)
    requires
        a.weekday_commits.len() == 7,
    ensures
        t as int == sum_counts(a.weekday_commits@),
{
    let mut t: u64 = 0;
    let mut i: usize = 0;
    while i < 7
        invariant
            i <= 7,
            a.weekday_commits.len() == 7,
            t as int == sum_counts(a.weekday_commits@.take(i as int)),
            t <= i * 0xffff_ffffu64,
        decreases 7 - i,
    {
        assert(a.weekday_commits@.take(i + 1).drop_last() =~= a.weekday_commits@.take(i as int));
        t = t + a.weekday_commits[i] as u64;
        i = i + 1;
    }
    assert(a.weekday_commits@.take(7) =~= a.weekday_commits@);
    t
}

/// `a` goes before `b` in the activity rows.
pub(crate) fn goes_before(a: &ContributorActivityStats, b: &ContributorActivityStats) -> (r: bool)
    requires
        a.weekday_commits.len() == 7,
        b.weekday_commits.len() == 7,
    ensures
        r == activity_before(*a, *b),
{
    let ta = weekday_total(a);
    let tb = weekday_total(b);
    ta > tb || (ta == tb && str_lt(a.email.as_str(), b.email.as_str()))
}

pub(crate) proof fn lemma_activity_order(a: ContributorActivityStats, b: ContributorActivityStats, c: ContributorActivityStats)
    ensures
        activity_before(a, b) && activity_before(b, c) ==> activity_before(a, c),
        a.email@ != b.email@ ==> activity_before(a, b) || activity_before(b, a),
        activity_before(a, b) ==> !activity_before(b, a),
{
    if activity_before(a, b) && activity_before(b, c) {
        if seq_lt(a.email@, b.email@) && seq_lt(b.email@, c.email@) {
            lemma_seq_lt_transitive(a.email@, b.email@, c.email@);
        }
    }
    lemma_seq_lt_total(a.email@, b.email@);
    if seq_lt(a.email@, b.email@) {
        lemma_seq_lt_asymmetric(a.email@, b.email@);
    }
}

/// Activity rows sorted by total commits, most first, then by email.
fn sort_activity(v: Vec<ContributorActivityStats>, Ghost(cs): Ghost<Seq<CommitView>>) -> (out: Vec<ContributorActivityStats>)
    requires
        activity_emails(v@).no_duplicates(),
        forall|i: int| 0 <= i < v.len() ==> activity_for(#[trigger] v[i], cs, v[i].email@),
    ensures
        out.len() == v.len(),
        activity_emails(out@).no_duplicates(),
        activity_emails(out@).to_set() == activity_emails(v@).to_set(),
        forall|i: int| 0 <= i < out.len() ==> activity_for(#[trigger] out[i], cs, out[i].email@),
        forall|i: int, j: int| 0 <= i < j < out.len() ==> activity_before(out[i], out[j]),
{
    let ghost all = activity_emails(v@).to_set();
    let mut rest = v;
    let mut out: Vec<ContributorActivityStats> = Vec::new();
    assert(activity_emails(out@).to_set() =~= Set::<Seq<char>>::empty());
    while rest.len() > 0
        invariant
            out.len() + rest.len() == v.len(),
            activity_emails(out@).no_duplicates(),
            activity_emails(rest@).no_duplicates(),
            forall|e: Seq<char>| activity_emails(out@).contains(e) ==> !activity_emails(rest@).contains(e),
            activity_emails(out@).to_set().union(activity_emails(rest@).to_set()) == all,
            forall|i: int| 0 <= i < out.len() ==> activity_for(#[trigger] out[i], cs, out[i].email@),
            forall|i: int| 0 <= i < rest.len() ==> activity_for(#[trigger] rest[i], cs, rest[i].email@),
            forall|i: int, j: int| 0 <= i < j < out.len() ==> activity_before(out[i], out[j]),
        decreases rest.len(),
    {
        let ghost rest_before = rest@;
        let ghost out_before = out@;
        proof {
            lemma_drop_first_keys(activity_emails(rest_before));
        }
        let x = rest.remove(0);
        assert(activity_emails(rest@) =~= activity_emails(rest_before).drop_first());
        assert(activity_emails(rest_before)[0] == x.email@);
        assert(activity_for(rest_before[0], cs, rest_before[0].email@));
        let mut pos: usize = 0;
        while pos < out.len() && !goes_before(&x, &out[pos])
            invariant
                pos <= out.len(),
                x.weekday_commits.len() == 7,
                forall|i: int| 0 <= i < out.len() ==> (#[trigger] out[i]).weekday_commits.len() == 7,
                forall|t: int| 0 <= t < pos ==> !activity_before(x, out[t]),
            ensures
                pos <= out.len(),
                forall|t: int| 0 <= t < pos ==> !activity_before(x, out[t]),
                pos < out.len() ==> activity_before(x, out[pos as int]),
            decreases out.len() - pos,
        {
            pos = pos + 1;
        }
        assert(!activity_emails(out_before).contains(x.email@)) by {
            assert(activity_emails(rest_before).contains(x.email@));
        }
        let ghost xv = x;
        out.insert(pos, x);
        proof {
            out_before.insert_ensures(pos as int, xv);
            assert(activity_emails(out@) =~= activity_emails(out_before).insert(pos as int, xv.email@));
            lemma_insert_keys(activity_emails(out_before), pos as int, xv.email@);
            assert forall|e: Seq<char>| activity_emails(out@).contains(e) implies !activity_emails(rest@).contains(e) by {
                assert(activity_emails(out@).to_set().contains(e));
            }
            assert(activity_emails(out@).to_set().union(activity_emails(rest@).to_set()) =~= all);
            assert forall|i: int, j: int| 0 <= i < j < out.len() implies activity_before(out[i], out[j]) by {
                if j < pos {
                } else if i > pos {
                } else if i == pos {
                    assert(activity_before(xv, out_before[pos as int]));
                    if j > pos + 1 {
                        lemma_activity_order(xv, out_before[pos as int], out_before[j - 1]);
                    }
                } else {
                    assert(!activity_before(xv, out_before[i]));
                    assert(activity_emails(out_before)[i] != xv.email@) by {
                        assert(activity_emails(out_before).contains(activity_emails(out_before)[i]));
                    }
                    lemma_activity_order(out_before[i], xv, xv);
                    lemma_activity_order(xv, out_before[i], xv);
                    if j > pos {
                    }
                }
            }
        }
    }
    assert(activity_emails(rest@) =~= Seq::<Seq<char>>::empty());
    assert(activity_emails(out@).to_set() =~= all);
    out
}


/// The date counts ordered by date, ascending.
fn sort_date_counts(v: Vec<(String, u32)>) -> (r: Vec<(String, u32)>)
    requires
        count_keys(v@).no_duplicates(),
    ensures
        ascending(count_keys(r@)),
        count_keys(r@).to_set() == count_keys(v@).to_set(),
        count_keys(r@).no_duplicates(),
        forall|i: int| 0 <= i < r.len() ==> v@.contains(#[trigger] r@[i]),
{
    let mut r: Vec<(String, u32)> = Vec::new();
    let mut i: usize = 0;
    while i < v.len()
        invariant
            i <= v.len(),
            count_keys(v@).no_duplicates(),
            ascending(count_keys(r@)),
            count_keys(r@).to_set() == count_keys(v@.take(i as int)).to_set(),
            forall|t: int| 0 <= t < r.len() ==> v@.take(i as int).contains(#[trigger] r@[t]),
        decreases v.len() - i,
    {
        let x = (v[i].0.clone(), v[i].1);
        assert(x == v@[i as int]);
        proof {
            assert(!count_keys(r@).contains(x.0@)) by {
                if count_keys(r@).contains(x.0@) {
                    assert(count_keys(v@.take(i as int)).to_set().contains(x.0@));
                    let k = choose|k: int| 0 <= k < i && #[trigger] count_keys(v@.take(i as int))[k] == x.0@;
                    assert(count_keys(v@)[k] == count_keys(v@)[i as int]);
                }
            }
        }
        let mut pos: usize = 0;
        while pos < r.len() && str_lt(r[pos].0.as_str(), x.0.as_str())
            invariant
                pos <= r.len(),
                forall|t: int| 0 <= t < pos ==> seq_lt(#[trigger] r@[t].0@, x.0@),
            decreases r.len() - pos,
        {
            pos = pos + 1;
        }
        proof {
            if pos < r.len() {
                assert(count_keys(r@)[pos as int] == r@[pos as int].0@);
                lemma_seq_lt_total(r@[pos as int].0@, x.0@);
                assert forall|t: int| pos <= t < r.len() implies seq_lt(x.0@, #[trigger] r@[t].0@) by {
                    if t > pos {
                        assert(seq_lt(count_keys(r@)[pos as int], count_keys(r@)[t]));
                        lemma_seq_lt_transitive(x.0@, r@[pos as int].0@, r@[t].0@);
                    }
                }
            }
        }
        let ghost before = count_keys(r@);
        let ghost rb = r@;
        r.insert(pos, x);
        proof {
            assert(count_keys(r@) =~= before.insert(pos as int, x.0@));
            assert forall|a: int, b: int| 0 <= a < b < r.len() implies seq_lt(
                #[trigger] count_keys(r@)[a],
                #[trigger] count_keys(r@)[b],
            ) by {
                if b < pos {
                } else if a < pos && b == pos {
                    assert(seq_lt(rb[a].0@, x.0@));
                } else if a < pos && b > pos {
                    assert(seq_lt(before[a], before[b - 1]));
                } else if a == pos {
                    assert(seq_lt(x.0@, rb[b - 1].0@));
                } else {
                    assert(seq_lt(before[a - 1], before[b - 1]));
                }
            }
            assert(count_keys(v@.take(i + 1)) =~= count_keys(v@.take(i as int)).push(x.0@));
            assert forall|e: Seq<char>| count_keys(r@).to_set().contains(e) <==> count_keys(v@.take(i + 1)).to_set().contains(e) by {
                if count_keys(r@).contains(e) {
                    let k = choose|k: int| 0 <= k < r.len() && #[trigger] count_keys(r@)[k] == e;
                    if k == pos {
                        assert(count_keys(v@.take(i + 1))[i as int] == e);
                    } else {
                        let q = if k < pos { k } else { k - 1 };
                        assert(before[q] == e);
                        assert(before.to_set().contains(e));
                        let k2 = choose|k2: int| 0 <= k2 < i && #[trigger] count_keys(v@.take(i as int))[k2] == e;
                        assert(count_keys(v@.take(i + 1))[k2] == e);
                    }
                }
                if count_keys(v@.take(i + 1)).contains(e) {
                    if e == x.0@ {
                        assert(count_keys(r@)[pos as int] == e);
                    } else {
                        let k = choose|k: int| 0 <= k < i + 1 && #[trigger] count_keys(v@.take(i + 1))[k] == e;
                        assert(count_keys(v@.take(i as int))[k] == e);
                        assert(before.to_set().contains(e));
                        let q = choose|q: int| 0 <= q < before.len() && #[trigger] before[q] == e;
                        if q < pos {
                            assert(count_keys(r@)[q] == e);
                        } else {
                            assert(count_keys(r@)[q + 1] == e);
                        }
                    }
                }
            }
            assert(count_keys(r@).to_set() =~= count_keys(v@.take(i + 1)).to_set());
            assert forall|t: int| 0 <= t < r.len() implies v@.take(i + 1).contains(#[trigger] r@[t]) by {
                if t == pos {
                    assert(r@[t] == v@[i as int]);
                    assert(v@.take(i + 1)[i as int] == v@[i as int]);
                } else {
                    let tb = if t < pos { t } else { t - 1 };
                    assert(r@[t] == rb[tb]);
                    assert(v@.take(i as int).contains(rb[tb]));
                    let q = choose|q: int| 0 <= q < i && v@.take(i as int)[q] == rb[tb];
                    assert(v@.take(i + 1)[q] == rb[tb]);
                }
            }
        }
        i = i + 1;
    }
    assert(v@.take(v.len() as int) =~= v@);
    proof {
        crate::text::lemma_ascending_unique(count_keys(r@));

    }
    r
}

/// Each list of strings sorted ascending.
fn sort_each(vs: Vec<Vec<String>>, Ghost(sets): Ghost<Seq<Set<Seq<char>>>>) -> (r: Vec<Vec<String>>)
    requires
        vs.len() == sets.len(),
        forall|k: int| 0 <= k < vs.len() ==> holds_set(#[trigger] vs@[k]@, sets[k]),
    ensures
        r.len() == vs.len(),
        forall|k: int| 0 <= k < r.len() ==> holds_set(#[trigger] r@[k]@, sets[k]) && ascending(string_views(r@[k]@)),
{
    let mut vs = vs;
    let ghost n = vs.len() as int;
    let ghost orig = vs@;
    let mut r: Vec<Vec<String>> = Vec::new();
    while vs.len() > 0
        invariant
            r.len() + vs.len() == n,
            n == sets.len(),
            vs@ == orig.skip(r.len() as int),
            orig.len() == n,
            forall|k: int| 0 <= k < n ==> holds_set(#[trigger] orig[k]@, sets[k]),
            forall|k: int| 0 <= k < r.len() ==> holds_set(#[trigger] r@[k]@, sets[k]) && ascending(string_views(r@[k]@)),
        decreases vs.len(),
    {
        let ghost k = r.len() as int;
        let ghost before = vs@;
        let x = vs.remove(0);
        assert(x == orig[k]);
        assert(holds_set(orig[k]@, sets[k]));
        let sorted = sort_strings(x);
        r.push(sorted);
        assert(vs@ =~= orig.skip(k + 1));
    }
    r
}

/// The dates of a list of date counts, as strings.
fn date_keys(v: &Vec<(String, u32)>) -> (r: Vec<String>)
    ensures
        string_views(r@) == count_keys(v@),
{
    let mut r: Vec<String> = Vec::new();
    let mut i: usize = 0;
    while i < v.len()
        invariant
            i <= v.len(),
            r.len() == i,
            forall|j: int| 0 <= j < i ==> #[trigger] r@[j]@ == v@[j].0@,
        decreases v.len() - i,
    {
        r.push(v[i].0.clone());
        i = i + 1;
    }
    assert(string_views(r@) =~= count_keys(v@));
    r
}

/// The statistics and the activity of one contributor.
fn finish(acc: ContributorAccumulator, Ghost(cs): Ghost<Seq<CommitView>>, Ghost(key): Ghost<Seq<char>>) -> (r: (ContributorStats, ContributorActivityStats))
    requires
        acc.holds(key, first_name(cs, key), commits_of(cs, key)),
        total_additions(commits_of(cs, key)) <= i64::MAX,
        total_deletions(commits_of(cs, key)) <= i64::MAX,
    ensures
        stats_for(r.0, cs, key),
        activity_for(r.1, cs, key),
{
    proof {
        string_views(acc.files@).unique_seq_to_set();
        count_keys(acc.date_counts@).unique_seq_to_set();
    }
    let ghost sub = commits_of(cs, key);
    let date_counts = sort_date_counts(acc.date_counts);
    proof {
        assert forall|i: int| 0 <= i < date_counts.len() implies (#[trigger] date_counts@[i]).1 as nat
            == commits_on(sub, date_counts@[i].0@) by {
            assert(acc.date_counts@.contains(date_counts@[i]));
            let j = choose|j: int| 0 <= j < acc.date_counts.len() && acc.date_counts@[j] == date_counts@[i];
        }
        count_keys(date_counts@).unique_seq_to_set();
    }
    let active_dates = date_keys(&date_counts);
    let dates_by_weekday = sort_each(acc.dates_by_weekday, Ghost(Seq::new(7, |w: int| dates_on_weekday(sub, w))));
    let buckets = sort_strings(acc.buckets);
    let buckets_by_hour = sort_each(acc.buckets_by_hour, Ghost(Seq::new(24, |h: int| buckets_of(sub, Some(h)))));
    let stats = ContributorStats {
        name: acc.name,
        email: acc.key.clone(),
        commits: acc.commits,
        lines_added: acc.lines_added,
        lines_deleted: acc.lines_deleted,
        net_lines: acc.lines_added as i64 - acc.lines_deleted as i64,
        files_touched: acc.files.len() as u64,
        file_extensions: Vec::new(),
        active_days: date_counts.len() as u64,
        first_commit: acc.first,
        last_commit: acc.last,
    };
    let activity = ContributorActivityStats {
        email: acc.key,
        weekday_commits: acc.weekday_commits,
        hour_commits: acc.hour_commits,
        active_dates,
        active_dates_by_weekday: dates_by_weekday,
        active_hour_buckets: buckets,
        active_hour_buckets_by_hour: buckets_by_hour,
        commits_by_date: date_counts,
    };
    (stats, activity)
}

/// The inputs on which the aggregation's counters stay within their integer types: fewer
/// than `u32::MAX` commits, and line totals that fit in `i64`.
pub open spec fn aggregation_fits(cs: Seq<CommitView>) -> bool {
    &&& cs.len() < u32::MAX
    &&& total_additions(cs) <= i64::MAX
    &&& total_deletions(cs) <= i64::MAX
}

/// Whether `aggregate_contributions` may be called on `commits`.
pub fn aggregation_fits_exec(commits: &Vec<ParsedCommit>) -> (b: bool)
    ensures
        b == aggregation_fits(commit_views(commits@)),
{
    let ghost cs = commit_views(commits@);
    if commits.len() >= 0xffff_ffff {
        return false;
    }
    let mut added: u64 = 0;
    let mut deleted: u64 = 0;
    let mut i: usize = 0;
    while i < commits.len()
        invariant
            i <= commits.len(),
            cs == commit_views(commits@),
            added as nat == total_additions(cs.take(i as int)),
            deleted as nat == total_deletions(cs.take(i as int)),
            added <= i64::MAX,
            deleted <= i64::MAX,
        decreases commits.len() - i,
    {
        assert(cs.take(i + 1).drop_last() =~= cs.take(i as int));
        let fcs = &commits[i].file_changes;
        let ghost fv = cs[i as int].file_changes;
        assert(fv == fcs@.map_values(|f: crate::git::parse::FileChange| f@));
        let mut j: usize = 0;
        while j < fcs.len()
            invariant
                j <= fcs.len(),
                i < commits.len(),
                cs == commit_views(commits@),
                fcs == &commits@[i as int].file_changes,
                fv == cs[i as int].file_changes,
                fv == fcs@.map_values(|f: crate::git::parse::FileChange| f@),
                added as nat == total_additions(cs.take(i as int)) + change_additions(fv.take(j as int)),
                deleted as nat == total_deletions(cs.take(i as int)) + change_deletions(fv.take(j as int)),
                added <= i64::MAX,
                deleted <= i64::MAX,
            decreases fcs.len() - j,
        {
            assert(fv.take(j + 1).drop_last() =~= fv.take(j as int));
            proof {
                lemma_change_sums_prefix(fv, j + 1);
                lemma_prefix_sums(cs, i + 1);
                assert(cs.take(i + 1).drop_last() =~= cs.take(i as int));
                assert(cs.take(i + 1).last() == cs[i as int]);
                assert(total_additions(cs.take(i + 1)) == total_additions(cs.take(i as int)) + change_additions(fv));
                assert(total_deletions(cs.take(i + 1)) == total_deletions(cs.take(i as int)) + change_deletions(fv));
            }
            assert(cs.take(i + 1).last() == cs[i as int]);
            if fcs[j].additions > 0x7fff_ffff_ffff_ffffu64 - added {
                return false;
            }
            if fcs[j].deletions > 0x7fff_ffff_ffff_ffffu64 - deleted {
                return false;
            }
            added = added + fcs[j].additions;
            deleted = deleted + fcs[j].deletions;
            j = j + 1;
        }
        assert(fv.take(fcs.len() as int) =~= fv);
        i = i + 1;
    }
    assert(cs.take(commits.len() as int) =~= cs);
    true
}

/// `r` is the contribution summary of the commits `cs`: one statistics row and one activity
/// row per distinct lowercased author email, the statistics sorted by commits (most first), the
/// activity rows by commits with a readable timestamp (most first) and then by email.
pub open spec fn summarizes(r: ContributionSummary, cs: Seq<CommitView>) -> bool {
    &&& r.total_commits == cs.len()
    &&& r.contributors.len() == keys_in_order(cs).len()
    &&& r.activity_by_contributor.len() == keys_in_order(cs).len()
    &&& stats_emails(r.contributors@).no_duplicates()
    &&& stats_emails(r.contributors@).to_set() == keys_in_order(cs).to_set()
    &&& forall|i: int| 0 <= i < r.contributors.len() ==> stats_for(
        #[trigger] r.contributors[i],
        cs,
        r.contributors[i].email@,
    )
    &&& forall|i: int, j: int| 0 <= i < j < r.contributors.len() ==> r.contributors[i].commits
        >= r.contributors[j].commits
    &&& activity_emails(r.activity_by_contributor@).no_duplicates()
    &&& activity_emails(r.activity_by_contributor@).to_set() == keys_in_order(cs).to_set()
    &&& forall|i: int| 0 <= i < r.activity_by_contributor.len() ==> activity_for(
        #[trigger] r.activity_by_contributor[i],
        cs,
        r.activity_by_contributor[i].email@,
    )
    &&& forall|i: int, j: int| 0 <= i < j < r.activity_by_contributor.len() ==> activity_before(
        r.activity_by_contributor[i],
        r.activity_by_contributor[j],
    )
}

/// Per-contributor statistics and activity facts of a list of commits, grouped by
/// lowercased author email.
///
/// Contributors come sorted by commits, most first; activity rows by their number of
/// commits with a readable timestamp, most first, then by email.
pub fn aggregate_contributions(commits: &Vec<ParsedCommit>) -> (r: ContributionSummary)
    requires
        aggregation_fits(commit_views(commits@)),
    ensures
        summarizes(r, commit_views(commits@)),
{
    let ghost cs = commit_views(commits@);
    let ghost keys = keys_in_order(cs);
    let mut accs = accumulate(commits);
    proof {
        lemma_keys_props(cs);
    }
    let mut stats: Vec<ContributorStats> = Vec::new();
    let mut acts: Vec<ContributorActivityStats> = Vec::new();
    let ghost n = accs.len();
    let mut k: usize = 0;
    while accs.len() > 0
        invariant
            k + accs.len() == n,
            n == keys.len(),
            keys == keys_in_order(cs),
            keys.no_duplicates(),
            aggregation_fits(cs),
            forall|j: int| 0 <= j < accs.len() ==> (#[trigger] accs[j]).holds(
                keys[k + j],
                first_name(cs, keys[k + j]),
                commits_of(cs, keys[k + j]),
            ),
            stats.len() == k,
            acts.len() == k,
            forall|j: int| 0 <= j < k ==> stats_for(#[trigger] stats[j], cs, keys[j]),
            forall|j: int| 0 <= j < k ==> activity_for(#[trigger] acts[j], cs, keys[j]),
        decreases accs.len(),
    {
        let ghost accs_before = accs@;
        let acc = accs.remove(0);
        assert forall|j: int| 0 <= j < accs.len() implies (#[trigger] accs[j]).holds(
            keys[(k + 1) + j],
            first_name(cs, keys[(k + 1) + j]),
            commits_of(cs, keys[(k + 1) + j]),
        ) by {
            assert(accs[j] == accs_before[j + 1]);
        }
        proof {
            lemma_sub_sums(cs, keys[k as int]);
        }
        let (st, act) = finish(acc, Ghost(cs), Ghost(keys[k as int]));
        stats.push(st);
        acts.push(act);
        k = k + 1;
    }
    assert(stats_emails(stats@) =~= keys);
    assert(activity_emails(acts@) =~= keys);
    let contributors = sort_by_commits(stats, Ghost(cs));
    let activity_by_contributor = sort_activity(acts, Ghost(cs));
    ContributionSummary { contributors, activity_by_contributor, total_commits: commits.len() as u64 }
}

/// The contribution summary of `git log --format=%H%x1f%an%x1f%ae%x1f%aI --numstat` output,
/// with the commits read from it; a parse error where the counters would overflow.
pub fn contributions_from_log(output: &str) -> (r: Result<(ContributionSummary, Vec<ParsedCommit>), RepolyzeError>)
    ensures
        match r {
            Ok((summary, commits)) => {
                &&& commit_views(commits@) == spec_parse_git_log(output@)
                &&& aggregation_fits(commit_views(commits@))
                &&& summarizes(summary, commit_views(commits@))
            },
            Err(e) => {
                &&& e is Parse
                &&& !aggregation_fits(spec_parse_git_log(output@))
            },
        },
{
    let commits = match parse_git_log(output) {
        Ok(c) => c,
        Err(e) => return Err(e),
    };
    if !aggregation_fits_exec(&commits) {
        return Err(RepolyzeError::Parse(crate::text::string_of_str("commit statistics exceed the counters' range")));
    }
    let summary = aggregate_contributions(&commits);
    Ok((summary, commits))
}

} // verus!
