//! Contribution statistics from the GitHub API.
//!
//! The per-contributor totals come from `/stats/contributors`; the timestamps come from the
//! commit list and are read exactly as for local history.
use vstd::prelude::*;

use crate::error::RepolyzeError;
use crate::git::contributions::{
    activity_before, activity_for, activity_of_key, commits_of, dates_of, goes_before,
    lemma_activity_order, total_additions, total_deletions, ts_max, ts_min,
};
use crate::git::parse::{CommitView, FileChangeView, ParsedCommit, commit_views};
use crate::github::api_types::{CommitInfo, ContributorStat, WeekStat};
use crate::model::{ContributionSummary, ContributorActivityStats, ContributorStats};
use crate::text::{lowercase, push_str, str_chars, string_from_chars, to_lowercase};

pub use crate::git::activity::{day_of_week, parse_hour_and_weekday};

verus! {

broadcast use vstd::string::group_string_axioms;

// ---------------------------------------------------------------------------
// What is computed
// ---------------------------------------------------------------------------

/// A commit of the API as a commit of the history: its SHA, its author's name, email and
/// date, and no file changes.
pub open spec fn info_view(c: CommitInfo) -> CommitView {
    CommitView {
        hash: c.sha@,
        author_name: c.commit.author.name@,
        author_email: c.commit.author.email@,
        timestamp: c.commit.author.date@,
        file_changes: Seq::<FileChangeView>::empty(),
    }
}

pub open spec fn info_views(cs: Seq<CommitInfo>) -> Seq<CommitView> {
    cs.map_values(|c: CommitInfo| info_view(c))
}

/// The lowercased GitHub login of a commit's author, when it has one.
pub open spec fn commit_login(c: CommitInfo) -> Option<Seq<char>> {
    match c.author {
        Some(a) => Some(lowercase(a.login@)),
        None => None,
    }
}

/// The author name and email of the first commit whose GitHub author has the (lowercased)
/// login `login`.
pub open spec fn identity_of(cs: Seq<CommitInfo>, login: Seq<char>) -> Option<(Seq<char>, Seq<char>)>
    decreases cs.len(),
{
    if cs.len() == 0 {
        None
    } else {
        match identity_of(cs.drop_last(), login) {
            Some(p) => Some(p),
            None => if commit_login(cs.last()) == Some(login) {
                Some((cs.last().commit.author.name@, cs.last().commit.author.email@))
            } else {
                None
            },
        }
    }
}

/// The lowercased login of a contributor (empty when the API gives no author).
pub open spec fn stat_login(s: ContributorStat) -> Seq<char> {
    match s.author {
        Some(a) => lowercase(a.login@),
        None => Seq::empty(),
    }
}

/// The name and email of a contributor: those of its first commit, else its login and the
/// login's `users.noreply.github.com` address.
pub open spec fn stat_identity(cs: Seq<CommitInfo>, s: ContributorStat) -> (Seq<char>, Seq<char>) {
    match identity_of(cs, stat_login(s)) {
        Some(p) => p,
        None => (stat_login(s), stat_login(s) + "@users.noreply.github.com"@),
    }
}

/// The key of a contributor: its email, lowercased.
pub open spec fn stat_key(cs: Seq<CommitInfo>, s: ContributorStat) -> Seq<char> {
    lowercase(stat_identity(cs, s).1)
}

pub open spec fn weeks_added(ws: Seq<WeekStat>) -> nat
    decreases ws.len(),
{
    if ws.len() == 0 {
        0
    } else {
        weeks_added(ws.drop_last()) + ws.last().a as nat
    }
}

pub open spec fn weeks_deleted(ws: Seq<WeekStat>) -> nat
    decreases ws.len(),
{
    if ws.len() == 0 {
        0
    } else {
        weeks_deleted(ws.drop_last()) + ws.last().d as nat
    }
}

pub open spec fn stats_total(ss: Seq<ContributorStat>) -> nat
    decreases ss.len(),
{
    if ss.len() == 0 {
        0
    } else {
        stats_total(ss.drop_last()) + ss.last().total as nat
    }
}

/// `x` clamped to the range of `i64`.
pub open spec fn clamp_i64(x: int) -> int {
    if x > i64::MAX {
        i64::MAX as int
    } else if x < i64::MIN {
        i64::MIN as int
    } else {
        x
    }
}

/// `c` is the statistics row of the contributor `s`: totals from its weekly statistics,
/// dates and timestamps from the commits of its key, no file data.
pub open spec fn github_stats_for(c: ContributorStats, cs: Seq<CommitInfo>, s: ContributorStat) -> bool {
    let key = stat_key(cs, s);
    let sub = commits_of(info_views(cs), key);
    &&& c.name@ == stat_identity(cs, s).0
    &&& c.email@ == key
    &&& c.commits == s.total
    &&& c.lines_added == weeks_added(s.weeks@)
    &&& c.lines_deleted == weeks_deleted(s.weeks@)
    &&& c.net_lines as int == clamp_i64((c.lines_added as i64) as int - (c.lines_deleted as i64) as int)
    &&& c.files_touched == 0
    &&& c.file_extensions@.len() == 0
    &&& c.wf()
    &&& c.active_days == dates_of(sub).len()
    &&& c.first_commit@ == ts_min(sub)
    &&& c.last_commit@ == ts_max(sub)
}

/// The inputs on which the counters stay within their integer types: fewer than `u32::MAX`
/// commits, and weekly and overall totals that fit in `u64`.
pub open spec fn github_summary_fits(stats: Seq<ContributorStat>, commits: Seq<CommitInfo>) -> bool {
    &&& commits.len() < u32::MAX
    &&& stats_total(stats) <= u64::MAX
    &&& forall|i: int| 0 <= i < stats.len() ==> weeks_added((#[trigger] stats[i]).weeks@) <= u64::MAX
    &&& forall|i: int| 0 <= i < stats.len() ==> weeks_deleted((#[trigger] stats[i]).weeks@) <= u64::MAX
}

/// `r` summarizes the contributor statistics `stats` with the commits `cs`: one statistics
/// row and one activity row per contributor, the statistics sorted by commits (most first),
/// the activity rows by commits with a readable timestamp (most first) and then by email.
pub open spec fn github_summarizes(r: ContributionSummary, stats: Seq<ContributorStat>, cs: Seq<CommitInfo>) -> bool {
    &&& r.total_commits == stats_total(stats)
    &&& r.contributors.len() == stats.len()
    &&& r.activity_by_contributor.len() == stats.len()
    &&& exists|rows: Seq<ContributorStats>| {
        &&& rows.len() == stats.len()
        &&& forall|i: int| 0 <= i < stats.len() ==> github_stats_for(#[trigger] rows[i], cs, stats[i])
        &&& r.contributors@.to_multiset() == rows.to_multiset()
        &&& r.contributors@ == stable_by_commits(rows)
    }
    &&& forall|i: int, j: int| 0 <= i < j < r.contributors.len() ==> r.contributors[i].commits >= r.contributors[j].commits
    &&& exists|acts: Seq<ContributorActivityStats>| {
        &&& acts.len() == stats.len()
        &&& forall|i: int| 0 <= i < stats.len() ==> #[trigger] acts[i].email@ == stat_key(cs, stats[i])
        &&& forall|i: int| 0 <= i < stats.len() ==> activity_for(#[trigger] acts[i], info_views(cs), acts[i].email@)
        &&& r.activity_by_contributor@.to_multiset() == acts.to_multiset()
    }
    &&& forall|i: int, j: int| 0 <= i < j < r.activity_by_contributor.len() ==> !activity_before(
        r.activity_by_contributor[j],
        r.activity_by_contributor[i],
    )
}

// ---------------------------------------------------------------------------
// Computing it
// ---------------------------------------------------------------------------

proof fn lemma_no_changes(cs: Seq<CommitView>)
    requires
        forall|i: int| 0 <= i < cs.len() ==> (#[trigger] cs[i]).file_changes.len() == 0,
    ensures
        total_additions(cs) == 0,
        total_deletions(cs) == 0,
    decreases cs.len(),
{
    if cs.len() > 0 {
        lemma_no_changes(cs.drop_last());
        assert(cs.last().file_changes =~= Seq::<FileChangeView>::empty());
    }
}

/// The commits of the API as commits of the history.
fn as_parsed(commits: &Vec<CommitInfo>) -> (r: Vec<ParsedCommit>)
    ensures
        commit_views(r@) == info_views(commits@),
{
    let mut r: Vec<ParsedCommit> = Vec::new();
    let mut i: usize = 0;
    while i < commits.len()
        invariant
            i <= commits.len(),
            r.len() == i,
            forall|j: int| 0 <= j < i ==> #[trigger] r@[j]@ == info_view(commits@[j]),
        decreases commits.len() - i,
    {
        let c = &commits[i];
        let p = ParsedCommit {
            hash: c.sha.clone(),
            author_name: c.commit.author.name.clone(),
            author_email: c.commit.author.email.clone(),
            timestamp: c.commit.author.date.clone(),
            file_changes: Vec::new(),
        };
        assert(p@.file_changes =~= Seq::<FileChangeView>::empty());
        r.push(p);
        i = i + 1;
    }
    assert(commit_views(r@) =~= info_views(commits@));
    r
}

/// The lowercased GitHub login of each commit's author.
fn commit_logins(commits: &Vec<CommitInfo>) -> (r: Vec<Option<String>>)
    ensures
        r.len() == commits.len(),
        forall|j: int| 0 <= j < commits.len() ==> #[trigger] opt_view(r@[j]) == commit_login(commits@[j]),
{
    let mut r: Vec<Option<String>> = Vec::new();
    let mut i: usize = 0;
    while i < commits.len()
        invariant
            i <= commits.len(),
            r.len() == i,
            forall|j: int| 0 <= j < i ==> #[trigger] opt_view(r@[j]) == commit_login(commits@[j]),
        decreases commits.len() - i,
    {
        let l = match &commits[i].author {
            Some(a) => Some(to_lowercase(a.login.as_str())),
            None => None,
        };
        r.push(l);
        i = i + 1;
    }
    r
}

pub open spec fn opt_view(o: Option<String>) -> Option<Seq<char>> {
    match o {
        Some(s) => Some(s@),
        None => None,
    }
}

/// The name and email of the first commit whose author has the login `login`.
fn find_identity(commits: &Vec<CommitInfo>, logins: &Vec<Option<String>>, login: &String) -> (r: Option<(String, String)>)
    requires
        logins.len() == commits.len(),
        forall|j: int| 0 <= j < commits.len() ==> #[trigger] opt_view(logins@[j]) == commit_login(commits@[j]),
    ensures
        match r {
            Some(p) => identity_of(commits@, login@) == Some((p.0@, p.1@)),
            None => identity_of(commits@, login@) is None,
        },
{
    let mut i: usize = 0;
    while i < commits.len()
        invariant
            i <= commits.len(),
            logins.len() == commits.len(),
            forall|j: int| 0 <= j < commits.len() ==> #[trigger] opt_view(logins@[j]) == commit_login(commits@[j]),
            identity_of(commits@.take(i as int), login@) is None,
        decreases commits.len() - i,
    {
        assert(commits@.take(i + 1).drop_last() =~= commits@.take(i as int));
        assert(commits@.take(i + 1).last() == commits@[i as int]);
        let hit = match &logins[i] {
            Some(l) => *l == *login,
            None => false,
        };
        assert(opt_view(logins@[i as int]) == commit_login(commits@[i as int]));
        assert(hit <==> commit_login(commits@[i as int]) == Some(login@));
        if hit {
            let a = &commits[i].commit.author;
            proof {
                lemma_identity_prefix(commits@, i + 1);
            }
            return Some((a.name.clone(), a.email.clone()));
        }
        i = i + 1;
    }
    assert(commits@.take(commits.len() as int) =~= commits@);
    None
}

/// A found identity stays the same as more commits follow.
proof fn lemma_identity_prefix(cs: Seq<CommitInfo>, k: int)
    requires
        0 <= k <= cs.len(),
    ensures
        forall|login: Seq<char>| (#[trigger] identity_of(cs.take(k), login)) is Some ==> identity_of(cs, login) == identity_of(cs.take(k), login),
    decreases cs.len() - k,
{
    if k < cs.len() {
        lemma_identity_prefix(cs, k + 1);
        assert(cs.take(k + 1).drop_last() =~= cs.take(k));
        assert forall|login: Seq<char>| (#[trigger] identity_of(cs.take(k), login)) is Some implies identity_of(cs, login)
            == identity_of(cs.take(k), login) by {
            assert(identity_of(cs.take(k + 1), login) == identity_of(cs.take(k), login));
        }
    } else {
        assert(cs.take(k) =~= cs);
    }
}

fn week_sums(ws: &Vec<WeekStat>) -> (r: (u64, u64))
    requires
        weeks_added(ws@) <= u64::MAX,
        weeks_deleted(ws@) <= u64::MAX,
    ensures
        r.0 == weeks_added(ws@),
        r.1 == weeks_deleted(ws@),
{
    let mut a: u64 = 0;
    let mut d: u64 = 0;
    let mut i: usize = 0;
    while i < ws.len()
        invariant
            i <= ws.len(),
            weeks_added(ws@) <= u64::MAX,
            weeks_deleted(ws@) <= u64::MAX,
            a == weeks_added(ws@.take(i as int)),
            d == weeks_deleted(ws@.take(i as int)),
        decreases ws.len() - i,
    {
        assert(ws@.take(i + 1).drop_last() =~= ws@.take(i as int));
        proof {
            lemma_weeks_prefix(ws@, i + 1);
        }
        a = a + ws[i].a;
        d = d + ws[i].d;
        i = i + 1;
    }
    assert(ws@.take(ws.len() as int) =~= ws@);
    (a, d)
}

proof fn lemma_weeks_prefix(ws: Seq<WeekStat>, k: int)
    requires
        0 <= k <= ws.len(),
    ensures
        weeks_added(ws.take(k)) <= weeks_added(ws),
        weeks_deleted(ws.take(k)) <= weeks_deleted(ws),
    decreases ws.len() - k,
{
    if k < ws.len() {
        lemma_weeks_prefix(ws, k + 1);
        assert(ws.take(k + 1).drop_last() =~= ws.take(k));
    } else {
        assert(ws.take(k) =~= ws);
    }
}

proof fn lemma_stats_total_prefix(ss: Seq<ContributorStat>, k: int)
    requires
        0 <= k <= ss.len(),
    ensures
        stats_total(ss.take(k)) <= stats_total(ss),
    decreases ss.len() - k,
{
    if k < ss.len() {
        lemma_stats_total_prefix(ss, k + 1);
        assert(ss.take(k + 1).drop_last() =~= ss.take(k));
    } else {
        assert(ss.take(k) =~= ss);
    }
}

/// `a - d` clamped to `i64`, both taken as `i64`.
fn net_lines_of(added: u64, deleted: u64) -> (r: i64)
    ensures
        r as int == clamp_i64((added as i64) as int - (deleted as i64) as int),
{
    let diff: i128 = added as i64 as i128 - deleted as i64 as i128;
    if diff > 0x7fff_ffff_ffff_ffffi128 {
        0x7fff_ffff_ffff_ffffi64
    } else if diff < -0x8000_0000_0000_0000i128 {
        -0x8000_0000_0000_0000i64
    } else {
        diff as i64
    }
}

/// The login's fallback address.
fn noreply_address(login: &String) -> (r: String)
    ensures
        r@ == login@ + "@users.noreply.github.com"@,
{
    let mut v = str_chars(login.as_str());
    push_str(&mut v, "@users.noreply.github.com");
    string_from_chars(&v)
}

/// The statistics row and the activity row of one contributor.
fn contributor_rows(
    stat: &ContributorStat,
    commits: &Vec<CommitInfo>,
    parsed: &Vec<ParsedCommit>,
    logins: &Vec<Option<String>>,
) -> (r: (ContributorStats, ContributorActivityStats))
    requires
        commits.len() < u32::MAX,
        commit_views(parsed@) == info_views(commits@),
        logins.len() == commits.len(),
        forall|j: int| 0 <= j < commits.len() ==> #[trigger] opt_view(logins@[j]) == commit_login(commits@[j]),
        weeks_added(stat.weeks@) <= u64::MAX,
        weeks_deleted(stat.weeks@) <= u64::MAX,
    ensures
        github_stats_for(r.0, commits@, *stat),
        r.1.email@ == stat_key(commits@, *stat),
        activity_for(r.1, info_views(commits@), r.1.email@),
{
    let login = match &stat.author {
        Some(a) => to_lowercase(a.login.as_str()),
        None => String::new(),
    };
    assert(login@ == stat_login(*stat));
    let (name, email) = match find_identity(commits, logins, &login) {
        Some(p) => p,
        None => {
            let e = noreply_address(&login);
            (login.clone(), e)
        },
    };
    assert(name@ == stat_identity(commits@, *stat).0 && email@ == stat_identity(commits@, *stat).1);
    let email_lower = to_lowercase(email.as_str());
    let (added, deleted) = week_sums(&stat.weeks);
    let ghost cs = commit_views(parsed@);
    proof {
        assert forall|i: int| 0 <= i < cs.len() implies (#[trigger] cs[i]).file_changes.len() == 0 by {
            assert(cs[i] == info_view(commits@[i]));
        }
        lemma_no_changes(cs);
    }
    let (activity, days, first, last) = activity_of_key(parsed, email_lower.clone());
    let stats = ContributorStats {
        name,
        email: email_lower,
        commits: stat.total,
        lines_added: added,
        lines_deleted: deleted,
        net_lines: net_lines_of(added, deleted),
        files_touched: 0,
        file_extensions: Vec::new(),
        active_days: days,
        first_commit: first,
        last_commit: last,
    };
    (stats, activity)
}

/// Index of the first row with fewer than `c` commits (the length when there is none).
pub open spec fn first_fewer(s: Seq<ContributorStats>, c: u64) -> int
    decreases s.len(),
{
    if s.len() == 0 {
        0
    } else if s[0].commits < c {
        0
    } else {
        1 + first_fewer(s.drop_first(), c)
    }
}

/// The rows sorted by commits, most first, rows with equal commits in their original order:
/// each row in turn goes after every row already placed that has at least as many commits.
pub open spec fn stable_by_commits(v: Seq<ContributorStats>) -> Seq<ContributorStats>
    decreases v.len(),
{
    if v.len() == 0 {
        Seq::empty()
    } else {
        let s = stable_by_commits(v.drop_last());
        s.insert(first_fewer(s, v.last().commits), v.last())
    }
}

proof fn lemma_first_fewer(s: Seq<ContributorStats>, c: u64, pos: int)
    requires
        0 <= pos <= s.len(),
        forall|t: int| 0 <= t < pos ==> s[t].commits >= c,
        pos < s.len() ==> s[pos].commits < c,
    ensures
        first_fewer(s, c) == pos,
    decreases s.len(),
{
    if s.len() > 0 && pos > 0 {
        assert forall|t: int| 0 <= t < pos - 1 implies s.drop_first()[t].commits >= c by {
            assert(s.drop_first()[t] == s[t + 1]);
        }
        lemma_first_fewer(s.drop_first(), c, pos - 1);
    }
}

/// Statistics rows sorted by commits, most first, keeping the order of equal ones.
fn sort_stats(v: Vec<ContributorStats>) -> (out: Vec<ContributorStats>)
    ensures
        out@.to_multiset() == v@.to_multiset(),
        out.len() == v.len(),
        forall|i: int, j: int| 0 <= i < j < out.len() ==> out[i].commits >= out[j].commits,
        out@ == stable_by_commits(v@),
{
    broadcast use vstd::seq_lib::to_multiset_remove, vstd::seq_lib::to_multiset_insert;
    let mut rest = v;
    let mut out: Vec<ContributorStats> = Vec::new();
    assert(out@.to_multiset().add(rest@.to_multiset()) =~= v@.to_multiset()) by {
        broadcast use vstd::multiset::group_multiset_axioms;
        assert(out@ + rest@ =~= v@);
        vstd::seq_lib::lemma_multiset_commutative(out@, rest@);
    }
    while rest.len() > 0
        invariant
            out.len() + rest.len() == v.len(),
            out@.to_multiset().add(rest@.to_multiset()) == v@.to_multiset(),
            forall|i: int, j: int| 0 <= i < j < out.len() ==> out[i].commits >= out[j].commits,
            out@ == stable_by_commits(v@.take(out.len() as int)),
            rest@ == v@.skip(out.len() as int),
        decreases rest.len(),
    {
        let ghost rest_before = rest@;
        let ghost out_before = out@;
        let ghost k = out.len() as int;
        let x = rest.remove(0);
        let mut pos: usize = 0;
        while pos < out.len() && out[pos].commits >= x.commits
            invariant
                pos <= out.len(),
                forall|t: int| 0 <= t < pos ==> out[t].commits >= x.commits,
            decreases out.len() - pos,
        {
            pos = pos + 1;
        }
        let ghost xv = x;
        out.insert(pos, x);
        proof {
            broadcast use vstd::multiset::group_multiset_axioms;
            assert(rest_before.remove(0) =~= rest@);
            assert(out_before.insert(pos as int, xv) =~= out@);
            vstd::seq_lib::to_multiset_remove(rest_before, 0);
            vstd::seq_lib::to_multiset_insert(out_before, pos as int, xv);
            assert(rest_before[0] == xv);
            vstd::seq_lib::to_multiset_contains(rest_before, xv);
            assert(out@.to_multiset().add(rest@.to_multiset()) =~= v@.to_multiset());
            assert forall|i: int, j: int| 0 <= i < j < out.len() implies out[i].commits >= out[j].commits by {
                if i == pos as int && j > i && pos < out_before.len() {
                    assert(out_before[pos as int].commits < xv.commits);
                }
            }
            lemma_first_fewer(out_before, xv.commits, pos as int);
            assert(xv == v@[k]);
            assert(v@.take(k + 1).drop_last() =~= v@.take(k));
            assert(v@.take(k + 1).last() == v@[k]);
            assert(rest@ =~= v@.skip(k + 1));
        }
    }
    assert(out@.to_multiset() =~= v@.to_multiset()) by {
        broadcast use vstd::multiset::group_multiset_axioms;
        assert(out@ + rest@ =~= out@);
        vstd::seq_lib::lemma_multiset_commutative(out@, rest@);
    }
    assert(v@.take(v.len() as int) =~= v@);
    out
}

/// Activity rows sorted by total commits, most first, then by email, keeping the order of
/// rows that neither goes before the other.
fn sort_activity_rows(v: Vec<ContributorActivityStats>) -> (out: Vec<ContributorActivityStats>)
    requires
        forall|i: int| 0 <= i < v.len() ==> (#[trigger] v[i]).weekday_commits.len() == 7,
    ensures
        out@.to_multiset() == v@.to_multiset(),
        out.len() == v.len(),
        forall|i: int, j: int| 0 <= i < j < out.len() ==> !activity_before(out[j], out[i]),
{
    broadcast use vstd::seq_lib::to_multiset_remove, vstd::seq_lib::to_multiset_insert;
    let mut rest = v;
    let mut out: Vec<ContributorActivityStats> = Vec::new();
    assert(out@.to_multiset().add(rest@.to_multiset()) =~= v@.to_multiset()) by {
        broadcast use vstd::multiset::group_multiset_axioms;
        assert(out@ + rest@ =~= v@);
        vstd::seq_lib::lemma_multiset_commutative(out@, rest@);
    }
    let ghost n = v.len();
    while rest.len() > 0
        invariant
            out.len() + rest.len() == v.len(),
            n == v.len(),
            out@.to_multiset().add(rest@.to_multiset()) == v@.to_multiset(),
            forall|i: int| 0 <= i < rest.len() ==> (#[trigger] rest[i]).weekday_commits.len() == 7,
            forall|i: int| 0 <= i < out.len() ==> (#[trigger] out[i]).weekday_commits.len() == 7,
            forall|i: int, j: int| 0 <= i < j < out.len() ==> !activity_before(out[j], out[i]),
        decreases rest.len(),
    {
        let ghost rest_before = rest@;
        let ghost out_before = out@;
        let x = rest.remove(0);
        assert(x == rest_before[0]);
        let mut pos: usize = 0;
        while pos < out.len() && !goes_before(&x, &out[pos])
            invariant
                pos <= out.len(),
                x.weekday_commits.len() == 7,
                forall|i: int| 0 <= i < out.len() ==> (#[trigger] out[i]).weekday_commits.len() == 7,
                forall|t: int| 0 <= t < pos ==> !activity_before(x, out[t]),
            ensures
                pos <= out.len(),
                forall|t: int| 0 <= t < pos ==> !activity_before(x, out[t]),
                pos < out.len() ==> activity_before(x, out[pos as int]),
            decreases out.len() - pos,
        {
            pos = pos + 1;
        }
        let ghost xv = x;
        out.insert(pos, x);
        proof {
            broadcast use vstd::multiset::group_multiset_axioms;
            assert(rest_before.remove(0) =~= rest@);
            assert(out_before.insert(pos as int, xv) =~= out@);
            vstd::seq_lib::to_multiset_remove(rest_before, 0);
            vstd::seq_lib::to_multiset_insert(out_before, pos as int, xv);
            assert(rest_before[0] == xv);
            vstd::seq_lib::to_multiset_contains(rest_before, xv);
            assert(out@.to_multiset().add(rest@.to_multiset()) =~= v@.to_multiset());
            assert forall|i: int| 0 <= i < rest.len() implies (#[trigger] rest[i]).weekday_commits.len() == 7 by {
                assert(rest[i] == rest_before[i + 1]);
            }
            assert forall|i: int, j: int| 0 <= i < j < out.len() implies !activity_before(out[j], out[i]) by {
                if i == pos as int {
                    if activity_before(out[j], xv) {
                        lemma_activity_order(out[j], xv, out_before[pos as int]);
                        assert(out[j] == out_before[j - 1]);
                    }
                } else if j == pos as int {
                } else if i < pos as int && j > pos as int {
                    assert(out[j] == out_before[j - 1]);
                } else if i > pos as int {
                    assert(out[j] == out_before[j - 1]);
                    assert(out[i] == out_before[i - 1]);
                }
            }
        }
    }
    assert(out@.to_multiset() =~= v@.to_multiset()) by {
        broadcast use vstd::multiset::group_multiset_axioms;
        assert(out@ + rest@ =~= out@);
        vstd::seq_lib::lemma_multiset_commutative(out@, rest@);
    }
    out
}

/// The contribution summary of a GitHub repository: one row per entry of
/// `/stats/contributors`, named after the first commit of its login in the commit list, with
/// dates and timestamps from that email's commits.
///
/// Contributors come sorted by commits, most first; activity rows by their number of commits
/// with a readable timestamp, most first, then by email.
pub fn build_contribution_summary(stats: &Vec<ContributorStat>, commits: &Vec<CommitInfo>) -> (r: Result<ContributionSummary, RepolyzeError>)
    requires
        github_summary_fits(stats@, commits@),
    ensures
        r matches Ok(s) && github_summarizes(s, stats@, commits@),
{
    let parsed = as_parsed(commits);
    let logins = commit_logins(commits);
    let mut contributors: Vec<ContributorStats> = Vec::new();
    let mut activity: Vec<ContributorActivityStats> = Vec::new();
    let mut total: u64 = 0;
    let mut i: usize = 0;
    while i < stats.len()
        invariant
            i <= stats.len(),
            github_summary_fits(stats@, commits@),
            commit_views(parsed@) == info_views(commits@),
            logins.len() == commits.len(),
            forall|j: int| 0 <= j < commits.len() ==> #[trigger] opt_view(logins@[j]) == commit_login(commits@[j]),
            contributors.len() == i,
            activity.len() == i,
            total == stats_total(stats@.take(i as int)),
            forall|j: int| 0 <= j < i ==> github_stats_for(#[trigger] contributors[j], commits@, stats@[j]),
            forall|j: int| 0 <= j < i ==> #[trigger] activity[j].email@ == stat_key(commits@, stats@[j]),
            forall|j: int| 0 <= j < i ==> activity_for(#[trigger] activity[j], info_views(commits@), activity[j].email@),
        decreases stats.len() - i,
    {
        assert(stats@.take(i + 1).drop_last() =~= stats@.take(i as int));
        proof {
            lemma_stats_total_prefix(stats@, i + 1);
        }
        let (st, act) = contributor_rows(&stats[i], commits, &parsed, &logins);
        total = total + stats[i].total;
        contributors.push(st);
        activity.push(act);
        i = i + 1;
    }
    assert(stats@.take(stats.len() as int) =~= stats@);
    let ghost rows = contributors@;
    let ghost acts = activity@;
    let contributors = sort_stats(contributors);
    let activity_by_contributor = sort_activity_rows(activity);
    let s = ContributionSummary { contributors, activity_by_contributor, total_commits: total };
    assert(forall|j: int| 0 <= j < stats.len() ==> github_stats_for(#[trigger] rows[j], commits@, stats@[j]));
    assert(forall|j: int| 0 <= j < stats.len() ==> #[trigger] acts[j].email@ == stat_key(commits@, stats@[j]));
    Ok(s)
}

} // verus!
