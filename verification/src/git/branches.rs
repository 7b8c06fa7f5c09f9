//! Finding branches that are merged or stale, and recording branch deletions.
//!
//! The `git` commands themselves run elsewhere; the functions here read their output and
//! decide what it means. Only the `origin` remote is considered.
use vstd::prelude::*;

use crate::date_util::{format_unix_timestamp, spec_format_unix_timestamp};
use crate::text::{
    contains_seq, line_ranges, lines_seq, parse_u64_in, parse_u64_spec, pieces, range_contains,
    range_starts_with, rfind_char, rfind_char_in, seq_lt, starts_with, str_chars, str_eq,
    str_lt, string_of_range, string_of_str, trim_range, trim_seq,
};

verus! {

broadcast use vstd::string::group_string_axioms;

/// A branch found by one of the listings.
#[derive(Debug, Clone)]
pub struct BranchInfo {
    pub name: String,
    pub has_local: bool,
    pub has_remote: bool,
    pub last_activity: Option<String>,
}

/// The outcome of deleting one branch.
#[derive(Debug, Clone)]
pub struct DeleteResult {
    pub branch: String,
    pub local_ok: Option<bool>,
    pub remote_ok: Option<bool>,
    pub error: Option<String>,
}

pub struct BranchView {
    pub name: Seq<char>,
    pub has_local: bool,
    pub has_remote: bool,
    pub last_activity: Option<Seq<char>>,
}

impl View for BranchInfo {
    type V = BranchView;

    open spec fn view(&self) -> BranchView {
        BranchView {
            name: self.name@,
            has_local: self.has_local,
            has_remote: self.has_remote,
            last_activity: match self.last_activity {
                Some(s) => Some(s@),
                None => None,
            },
        }
    }
}

pub open spec fn branch_views(v: Seq<BranchInfo>) -> Seq<BranchView> {
    v.map_values(|b: BranchInfo| b@)
}

/// Branch names that are never offered for deletion.
pub open spec fn protected_branches() -> Seq<Seq<char>> {
    seq![
        "main"@,
        "master"@,
        "dev"@,
        "develop"@,
        "development"@,
        "sandbox"@,
        "prod"@,
        "production"@,
        "demo"@,
    ]
}

pub open spec fn spec_is_protected(name: Seq<char>) -> bool {
    protected_branches().contains(name)
}

/// Whether `name` is one of the protected branch names.
pub fn is_protected(name: &str) -> (r: bool)
    ensures
        r == spec_is_protected(name@),
{
    let r = str_eq(name, "main") || str_eq(name, "master") || str_eq(name, "dev") || str_eq(name, "develop")
        || str_eq(name, "development") || str_eq(name, "sandbox") || str_eq(name, "prod") || str_eq(
        name,
        "production",
    ) || str_eq(name, "demo");
    proof {
        let ps = protected_branches();
        if spec_is_protected(name@) {
            let k = choose|k: int| 0 <= k < ps.len() && ps[k] == name@;
            assert(ps[k] == name@);
        }
        if r {
            if name@ == "main"@ {
                assert(ps[0] == name@);
            } else if name@ == "master"@ {
                assert(ps[1] == name@);
            } else if name@ == "dev"@ {
                assert(ps[2] == name@);
            } else if name@ == "develop"@ {
                assert(ps[3] == name@);
            } else if name@ == "development"@ {
                assert(ps[4] == name@);
            } else if name@ == "sandbox"@ {
                assert(ps[5] == name@);
            } else if name@ == "prod"@ {
                assert(ps[6] == name@);
            } else if name@ == "production"@ {
                assert(ps[7] == name@);
            } else {
                assert(ps[8] == name@);
            }
        }
    }
    r
}

// ---------------------------------------------------------------------------
// Sorting by name
// ---------------------------------------------------------------------------

/// Branches sorted by name (ascending).
pub open spec fn sorted_by_name(v: Seq<BranchView>) -> bool {
    forall|i: int, j: int| 0 <= i < j < v.len() ==> !seq_lt(v[j].name, v[i].name)
}

proof fn lemma_insert_multiset<A>(s: Seq<A>, pos: int, x: A)
    requires
        0 <= pos <= s.len(),
    ensures
        s.insert(pos, x).to_multiset() == s.to_multiset().insert(x),
{
    broadcast use vstd::seq_lib::group_to_multiset_ensures;

    let t = s.insert(pos, x);
    s.insert_ensures(pos, x);
    assert(t.remove(pos) =~= s);
    assert(t[pos] == x);
    assert(t.to_multiset().count(x) > 0);
    assert(t.to_multiset() =~= s.to_multiset().insert(x));
}

/// The branches sorted by name; branches with equal names keep their order.
fn sort_by_name(v: Vec<BranchInfo>) -> (out: Vec<BranchInfo>)
    ensures
        sorted_by_name(branch_views(out@)),
        branch_views(out@).to_multiset() == branch_views(v@).to_multiset(),
{
    broadcast use vstd::seq_lib::group_to_multiset_ensures;

    let ghost all = branch_views(v@).to_multiset();
    let mut rest = v;
    let mut out: Vec<BranchInfo> = Vec::new();
    assert(branch_views(out@).to_multiset().add(branch_views(rest@).to_multiset()) =~= all);
    while rest.len() > 0
        invariant
            branch_views(out@).to_multiset().add(branch_views(rest@).to_multiset()) == all,
            sorted_by_name(branch_views(out@)),
        decreases rest.len(),
    {
        let ghost rest_before = rest@;
        let ghost out_before = out@;
        let x = rest.remove(0);
        assert(branch_views(rest@) =~= branch_views(rest_before).remove(0));
        let mut pos: usize = 0;
        while pos < out.len() && !str_lt(x.name.as_str(), out[pos].name.as_str())
            invariant
                pos <= out.len(),
                forall|t: int| 0 <= t < pos ==> !seq_lt(x.name@, (#[trigger] out@[t]).name@),
            ensures
                pos <= out.len(),
                forall|t: int| 0 <= t < pos ==> !seq_lt(x.name@, (#[trigger] out@[t]).name@),
                pos < out.len() ==> seq_lt(x.name@, out@[pos as int].name@),
            decreases out.len() - pos,
        {
            pos = pos + 1;
        }
        let ghost xv = x@;
        out.insert(pos, x);
        proof {
            assert(branch_views(out@) =~= branch_views(out_before).insert(pos as int, xv));
            lemma_insert_multiset(branch_views(out_before), pos as int, xv);
            assert(branch_views(rest_before)[0] == xv);
            branch_views(rest_before).to_multiset_ensures();
            assert(branch_views(rest_before).remove(0).to_multiset() == branch_views(rest_before).to_multiset().remove(xv));
            assert(branch_views(rest_before).contains(xv));
            assert(branch_views(rest_before).to_multiset().count(xv) > 0);
            assert(branch_views(out@).to_multiset().add(branch_views(rest@).to_multiset()) =~= all);
            let ov = branch_views(out@);
            let bv = branch_views(out_before);
            assert forall|i: int, j: int| 0 <= i < j < ov.len() implies !seq_lt(ov[j].name, ov[i].name) by {
                if j < pos {
                    assert(ov[i] == bv[i] && ov[j] == bv[j]);
                } else if i > pos {
                    assert(ov[i] == bv[i - 1] && ov[j] == bv[j - 1]);
                } else if i == pos {
                    assert(ov[j] == bv[j - 1]);
                    if seq_lt(ov[j].name, xv.name) {
                        assert(seq_lt(xv.name, bv[pos as int].name));
                        if j - 1 > pos {
                            assert(!seq_lt(bv[j - 1].name, bv[pos as int].name));
                            crate::text::lemma_seq_lt_total(bv[j - 1].name, bv[pos as int].name);
                            if bv[j - 1].name != bv[pos as int].name {
                                crate::text::lemma_seq_lt_transitive(xv.name, bv[pos as int].name, bv[j - 1].name);
                            }
                        }
                        crate::text::lemma_seq_lt_asymmetric(xv.name, bv[j - 1].name);
                    }
                } else {
                    assert(ov[i] == bv[i]);
                    if j == pos {
                        assert(!seq_lt(xv.name, out_before[i].name@));
                    } else {
                        assert(ov[j] == bv[j - 1]);
                    }
                }
            }
        }
    }
    assert(branch_views(rest@) =~= Seq::<BranchView>::empty());
    assert(branch_views(rest@).to_multiset() =~= vstd::multiset::Multiset::<BranchView>::empty());
    assert(branch_views(out@).to_multiset() =~= all);
    out
}

// ---------------------------------------------------------------------------
// Merged branches
// ---------------------------------------------------------------------------

/// `str::trim_start_matches("* ")`: every leading `"* "` removed.
pub open spec fn strip_stars(s: Seq<char>) -> Seq<char>
    decreases s.len(),
{
    if s.len() >= 2 && s[0] == '*' && s[1] == ' ' {
        strip_stars(s.skip(2))
    } else {
        s
    }
}

/// A branch name that the listings may offer: not protected, not the base, not checked out.
pub open spec fn offerable(name: Seq<char>, base: Seq<char>, current: Seq<char>) -> bool {
    !spec_is_protected(name) && name != base && name != current
}

/// The local branch names of `git branch --merged <base>` output.
pub open spec fn local_merged(lines: Seq<Seq<char>>, base: Seq<char>, current: Seq<char>) -> Seq<Seq<char>>
    decreases lines.len(),
{
    if lines.len() == 0 {
        Seq::empty()
    } else {
        let p = local_merged(lines.drop_last(), base, current);
        let n = strip_stars(trim_seq(lines.last()));
        if n.len() > 0 && offerable(n, base, current) {
            p.push(n)
        } else {
            p
        }
    }
}

/// The `origin` branch names of `git branch -r --merged <base>` output (`origin/HEAD -> ...`
/// lines skipped).
pub open spec fn remote_merged(lines: Seq<Seq<char>>, base: Seq<char>, current: Seq<char>) -> Seq<Seq<char>>
    decreases lines.len(),
{
    if lines.len() == 0 {
        Seq::empty()
    } else {
        let p = remote_merged(lines.drop_last(), base, current);
        let n = trim_seq(lines.last());
        if !contains_seq(n, "->"@) && starts_with(n, "origin/"@) && offerable(n.skip(7), base, current) {
            p.push(n.skip(7))
        } else {
            p
        }
    }
}

/// The local entries of the merged listing.
pub open spec fn local_entries(local: Seq<Seq<char>>, remote: Seq<Seq<char>>) -> Seq<BranchView> {
    local.map_values(
        |n: Seq<char>| BranchView { name: n, has_local: true, has_remote: remote.contains(n), last_activity: None },
    )
}

/// The remote-only entries of the merged listing.
pub open spec fn remote_only_entries(local: Seq<Seq<char>>, remote: Seq<Seq<char>>) -> Seq<BranchView>
    decreases remote.len(),
{
    if remote.len() == 0 {
        Seq::empty()
    } else {
        let p = remote_only_entries(local, remote.drop_last());
        if local.contains(remote.last()) {
            p
        } else {
            p.push(BranchView { name: remote.last(), has_local: false, has_remote: true, last_activity: None })
        }
    }
}

/// Line `k` of a `git branch --merged` listing names the local branch `name`.
pub open spec fn local_line_names(lines: Seq<Seq<char>>, k: int, name: Seq<char>) -> bool {
    0 <= k < lines.len() && strip_stars(trim_seq(lines[k])) == name
}

/// Line `k` of a `git branch -r --merged` listing names `origin/<name>` (and is no
/// `origin/HEAD -> ...` alias).
pub open spec fn remote_line_names(lines: Seq<Seq<char>>, k: int, name: Seq<char>) -> bool {
    0 <= k < lines.len() && !contains_seq(trim_seq(lines[k]), "->"@) && trim_seq(lines[k]) == "origin/"@ + name
}

/// An entry that the merged listing may offer for deletion: not protected, neither the base
/// nor the checked-out branch, local only if a local line names it, remote only if an
/// `origin/` line names it, and at least one of the two.
pub open spec fn merged_entry_ok(
    b: BranchView,
    local_lines: Seq<Seq<char>>,
    remote_lines: Seq<Seq<char>>,
    base: Seq<char>,
    current: Seq<char>,
) -> bool {
    &&& !spec_is_protected(b.name)
    &&& b.name != base
    &&& b.name != current
    &&& b.has_local ==> exists|k: int| #[trigger] local_line_names(local_lines, k, b.name)
    &&& b.has_remote ==> exists|k: int| #[trigger] remote_line_names(remote_lines, k, b.name)
    &&& b.has_local || b.has_remote
    &&& b.last_activity is None
}

proof fn lemma_local_merged_sound(lines: Seq<Seq<char>>, base: Seq<char>, current: Seq<char>)
    ensures
        forall|j: int| 0 <= j < local_merged(lines, base, current).len() ==> {
            let n = #[trigger] local_merged(lines, base, current)[j];
            &&& !spec_is_protected(n) && n != base && n != current
            &&& exists|k: int| #[trigger] local_line_names(lines, k, n)
        },
    decreases lines.len(),
{
    if lines.len() > 0 {
        let dl = lines.drop_last();
        lemma_local_merged_sound(dl, base, current);
        let p = local_merged(dl, base, current);
        let r = local_merged(lines, base, current);
        assert forall|j: int| 0 <= j < r.len() implies {
            let n = #[trigger] r[j];
            &&& !spec_is_protected(n) && n != base && n != current
            &&& exists|k: int| #[trigger] local_line_names(lines, k, n)
        } by {
            if j < p.len() {
                assert(r[j] == p[j]);
                let k = choose|k: int| #[trigger] local_line_names(dl, k, p[j]);
                assert(dl[k] == lines[k]);
                assert(local_line_names(lines, k, r[j]));
            } else {
                assert(local_line_names(lines, lines.len() - 1, r[j]));
            }
        }
    }
}

proof fn lemma_remote_merged_sound(lines: Seq<Seq<char>>, base: Seq<char>, current: Seq<char>)
    ensures
        forall|j: int| 0 <= j < remote_merged(lines, base, current).len() ==> {
            let n = #[trigger] remote_merged(lines, base, current)[j];
            &&& !spec_is_protected(n) && n != base && n != current
            &&& exists|k: int| #[trigger] remote_line_names(lines, k, n)
        },
    decreases lines.len(),
{
    if lines.len() > 0 {
        let dl = lines.drop_last();
        lemma_remote_merged_sound(dl, base, current);
        let p = remote_merged(dl, base, current);
        let r = remote_merged(lines, base, current);
        assert forall|j: int| 0 <= j < r.len() implies {
            let n = #[trigger] r[j];
            &&& !spec_is_protected(n) && n != base && n != current
            &&& exists|k: int| #[trigger] remote_line_names(lines, k, n)
        } by {
            if j < p.len() {
                assert(r[j] == p[j]);
                let k = choose|k: int| #[trigger] remote_line_names(dl, k, p[j]);
                assert(dl[k] == lines[k]);
                assert(remote_line_names(lines, k, r[j]));
            } else {
                let t = trim_seq(lines.last());
                reveal_strlit("origin/");
                assert(starts_with(t, "origin/"@));
                assert(t.take(7) == "origin/"@);
                assert(t =~= t.take(7) + t.skip(7));
                assert(remote_line_names(lines, lines.len() - 1, r[j]));
            }
        }
    }
}

proof fn lemma_remote_only_entries(local: Seq<Seq<char>>, remote: Seq<Seq<char>>)
    ensures
        forall|i: int| 0 <= i < remote_only_entries(local, remote).len() ==> {
            let b = #[trigger] remote_only_entries(local, remote)[i];
            &&& remote.contains(b.name)
            &&& !b.has_local && b.has_remote && b.last_activity is None
        },
    decreases remote.len(),
{
    if remote.len() > 0 {
        lemma_remote_only_entries(local, remote.drop_last());
        let p = remote_only_entries(local, remote.drop_last());
        let r = remote_only_entries(local, remote);
        assert forall|i: int| 0 <= i < r.len() implies {
            let b = #[trigger] r[i];
            &&& remote.contains(b.name)
            &&& !b.has_local && b.has_remote && b.last_activity is None
        } by {
            if i < p.len() {
                assert(r[i] == p[i]);
                let j = choose|j: int| 0 <= j < remote.drop_last().len() && remote.drop_last()[j] == p[i].name;
                assert(remote[j] == p[i].name);
            } else {
                assert(remote[remote.len() - 1] == r[i].name);
            }
        }
    }
}

/// No entry of the merged listing is protected, the base or the checked-out branch, and each
/// comes from the listings: its local side from a local line naming it, its remote side from
/// an `origin/<name>` line.
pub proof fn lemma_merged_entries_sound(
    local_lines: Seq<Seq<char>>,
    remote_lines: Seq<Seq<char>>,
    base: Seq<char>,
    current: Seq<char>,
)
    ensures
        ({
            let lm = local_merged(local_lines, base, current);
            let rm = remote_merged(remote_lines, base, current);
            let all = local_entries(lm, rm) + remote_only_entries(lm, rm);
            forall|i: int| 0 <= i < all.len() ==> merged_entry_ok(#[trigger] all[i], local_lines, remote_lines, base, current)
        }),
{
    let lm = local_merged(local_lines, base, current);
    let rm = remote_merged(remote_lines, base, current);
    let le = local_entries(lm, rm);
    let ro = remote_only_entries(lm, rm);
    let all = le + ro;
    lemma_local_merged_sound(local_lines, base, current);
    lemma_remote_merged_sound(remote_lines, base, current);
    lemma_remote_only_entries(lm, rm);
    assert forall|i: int| 0 <= i < all.len() implies merged_entry_ok(#[trigger] all[i], local_lines, remote_lines, base, current) by {
        if i < le.len() {
            let n = lm[i];
            assert(all[i] == le[i]);
            assert(lm[i] == n);
            if rm.contains(n) {
                let j = choose|j: int| 0 <= j < rm.len() && rm[j] == n;
                assert(rm[j] == n);
            }
        } else {
            let b = ro[i - le.len()];
            assert(all[i] == b);
            let j = choose|j: int| 0 <= j < rm.len() && rm[j] == b.name;
            assert(rm[j] == b.name);
        }
    }
}

/// Line `k` of a `git branch --merged` listing names the offerable local branch `name`.
pub open spec fn local_merged_line(lines: Seq<Seq<char>>, k: int, name: Seq<char>, base: Seq<char>, current: Seq<char>) -> bool {
    &&& 0 <= k < lines.len()
    &&& strip_stars(trim_seq(lines[k])) == name
    &&& name.len() > 0
    &&& !spec_is_protected(name) && name != base && name != current
}

/// Line `k` of a `git branch -r --merged` listing names the offerable `origin/<name>`.
pub open spec fn remote_merged_line(lines: Seq<Seq<char>>, k: int, name: Seq<char>, base: Seq<char>, current: Seq<char>) -> bool {
    &&& remote_line_names(lines, k, name)
    &&& !spec_is_protected(name) && name != base && name != current
}

proof fn lemma_local_merged_complete(lines: Seq<Seq<char>>, base: Seq<char>, current: Seq<char>)
    ensures
        forall|k: int, n: Seq<char>| #[trigger] local_merged_line(lines, k, n, base, current) ==> local_merged(lines, base, current).contains(n),
    decreases lines.len(),
{
    if lines.len() > 0 {
        let dl = lines.drop_last();
        lemma_local_merged_complete(dl, base, current);
        let p = local_merged(dl, base, current);
        let r = local_merged(lines, base, current);
        assert forall|k: int, n: Seq<char>| #[trigger] local_merged_line(lines, k, n, base, current) implies r.contains(n) by {
            if k < dl.len() {
                assert(dl[k] == lines[k]);
                assert(local_merged_line(dl, k, n, base, current));
                let i = choose|i: int| 0 <= i < p.len() && p[i] == n;
                assert(r[i] == p[i]);
            } else {
                assert(lines[k] == lines.last());
                assert(r[r.len() - 1] == n);
            }
        }
    }
}

proof fn lemma_remote_merged_complete(lines: Seq<Seq<char>>, base: Seq<char>, current: Seq<char>)
    ensures
        forall|k: int, n: Seq<char>| #[trigger] remote_merged_line(lines, k, n, base, current) ==> remote_merged(lines, base, current).contains(n),
    decreases lines.len(),
{
    if lines.len() > 0 {
        let dl = lines.drop_last();
        lemma_remote_merged_complete(dl, base, current);
        let p = remote_merged(dl, base, current);
        let r = remote_merged(lines, base, current);
        assert forall|k: int, n: Seq<char>| #[trigger] remote_merged_line(lines, k, n, base, current) implies r.contains(n) by {
            if k < dl.len() {
                assert(dl[k] == lines[k]);
                assert(remote_merged_line(dl, k, n, base, current));
                let i = choose|i: int| 0 <= i < p.len() && p[i] == n;
                assert(r[i] == p[i]);
            } else {
                assert(lines[k] == lines.last());
                let t = trim_seq(lines.last());
                reveal_strlit("origin/");
                assert(t.take(7) =~= "origin/"@);
                assert(starts_with(t, "origin/"@));
                assert(t.skip(7) =~= n);
                assert(r[r.len() - 1] == n);
            }
        }
    }
}

proof fn lemma_remote_only_complete(local: Seq<Seq<char>>, remote: Seq<Seq<char>>, n: Seq<char>)
    requires
        remote.contains(n),
        !local.contains(n),
    ensures
        has_remote_entry(remote_only_entries(local, remote), n),
    decreases remote.len(),
{
    let p = remote_only_entries(local, remote.drop_last());
    let r = remote_only_entries(local, remote);
    if remote.last() == n {
        assert(r[r.len() - 1].name == n && r[r.len() - 1].has_remote);
    } else {
        let j = choose|j: int| 0 <= j < remote.len() && remote[j] == n;
        assert(remote.drop_last()[j] == n);
        lemma_remote_only_complete(local, remote.drop_last(), n);
        let i = choose|i: int| 0 <= i < p.len() && (#[trigger] p[i]).name == n && p[i].has_remote;
        assert(r[i] == p[i]);
    }
}

/// The merged listing misses nothing: every offerable local line has a local entry of its
/// name, and every offerable `origin/<name>` line a remote entry of that name.
pub proof fn lemma_merged_entries_complete(
    local_lines: Seq<Seq<char>>,
    remote_lines: Seq<Seq<char>>,
    base: Seq<char>,
    current: Seq<char>,
)
    ensures
        ({
            let lm = local_merged(local_lines, base, current);
            let rm = remote_merged(remote_lines, base, current);
            let all = local_entries(lm, rm) + remote_only_entries(lm, rm);
            &&& forall|k: int, n: Seq<char>| #[trigger] local_merged_line(local_lines, k, n, base, current) ==> has_local_entry(all, n)
            &&& forall|k: int, n: Seq<char>| #[trigger] remote_merged_line(remote_lines, k, n, base, current) ==> has_remote_entry(all, n)
        }),
{
    let lm = local_merged(local_lines, base, current);
    let rm = remote_merged(remote_lines, base, current);
    let le = local_entries(lm, rm);
    let ro = remote_only_entries(lm, rm);
    let all = le + ro;
    lemma_local_merged_complete(local_lines, base, current);
    lemma_remote_merged_complete(remote_lines, base, current);
    assert forall|k: int, n: Seq<char>| #[trigger] local_merged_line(local_lines, k, n, base, current) implies has_local_entry(all, n) by {
        let i = choose|i: int| 0 <= i < lm.len() && lm[i] == n;
        assert(all[i] == le[i]);
    }
    assert forall|k: int, n: Seq<char>| #[trigger] remote_merged_line(remote_lines, k, n, base, current) implies has_remote_entry(all, n) by {
        if lm.contains(n) {
            let i = choose|i: int| 0 <= i < lm.len() && lm[i] == n;
            assert(all[i] == le[i]);
            assert(le[i].has_remote);
        } else {
            lemma_remote_only_complete(lm, rm, n);
            let i = choose|i: int| 0 <= i < ro.len() && (#[trigger] ro[i]).name == n && ro[i].has_remote;
            assert(all[le.len() + i] == ro[i]);
        }
    }
}

/// Names read from listing output: each line trimmed, and for local listings the `* ` marker
/// of the checked-out branch removed.
fn read_names(output: &str, base: &str, current: &str, remote: bool) -> (r: Vec<String>)
    ensures
        crate::text::string_views(r@) == if remote {
            remote_merged(lines_seq(output@), base@, current@)
        } else {
            local_merged(lines_seq(output@), base@, current@)
        },
{
    let s = str_chars(output);
    let lines = line_ranges(&s, 0, s.len());
    assert(s@.subrange(0, s.len() as int) =~= s@);
    let ghost ls = pieces(s@, lines@);
    let arrow = str_chars("->");
    let origin = str_chars("origin/");
    proof {
        reveal_strlit("origin/");
    }
    let mut r: Vec<String> = Vec::new();
    let mut k: usize = 0;
    while k < lines.len()
        invariant
            k <= lines.len(),
            ls == pieces(s@, lines@),
            ls == lines_seq(s@),
            crate::text::ranges_within(lines@, 0, s.len() as int),
            arrow@ == "->"@,
            origin@ == "origin/"@,
            origin@.len() == 7,
            crate::text::string_views(r@) == if remote {
                remote_merged(ls.take(k as int), base@, current@)
            } else {
                local_merged(ls.take(k as int), base@, current@)
            },
        decreases lines.len() - k,
    {
        let (a, b) = lines[k];
        assert(0 <= lines@[k as int].0 <= lines@[k as int].1 <= s.len());
        assert(ls.take(k + 1).drop_last() =~= ls.take(k as int));
        assert(ls.take(k + 1).last() == s@.subrange(a as int, b as int));
        let (ta, tb) = trim_range(&s, a, b);
        let ghost line = s@.subrange(ta as int, tb as int);
        let ghost before = r@;
        if remote {
            if !range_contains(&s, ta, tb, &arrow) && range_starts_with(&s, ta, tb, &origin) {
                assert(line.skip(7) =~= s@.subrange(ta + 7, tb as int));
                let name = string_of_range(&s, ta + 7, tb);
                if !is_protected(name.as_str()) && !str_eq(name.as_str(), base) && !str_eq(name.as_str(), current) {
                    r.push(name);
                    assert(crate::text::string_views(r@) =~= crate::text::string_views(before).push(line.skip(7)));
                }
            }
        } else {
            let mut st = ta;
            while st < tb && tb - st >= 2 && s[st] == '*' && s[st + 1] == ' '
                invariant
                    ta <= st <= tb <= s.len(),
                    strip_stars(line) == strip_stars(s@.subrange(st as int, tb as int)),
                decreases tb - st,
            {
                assert(s@.subrange(st as int, tb as int).skip(2) =~= s@.subrange(st + 2, tb as int));
                st = st + 2;
            }
            assert(strip_stars(s@.subrange(st as int, tb as int)) == s@.subrange(st as int, tb as int));
            if st < tb {
                let name = string_of_range(&s, st, tb);
                if !is_protected(name.as_str()) && !str_eq(name.as_str(), base) && !str_eq(name.as_str(), current) {
                    r.push(name);
                    assert(crate::text::string_views(r@) =~= crate::text::string_views(before).push(
                        strip_stars(line),
                    ));
                }
            }
        }
        k = k + 1;
    }
    assert(ls.take(lines.len() as int) =~= ls);
    r
}

fn contains_name(v: &Vec<String>, name: &String) -> (r: bool)
    ensures
        r == crate::text::string_views(v@).contains(name@),
{
    crate::text::contains_string(v, name)
}

/// The branches merged into `base_branch`, from the output of `git branch --merged <base>`
/// (`local_output`) and `git branch -r --merged <base>` (`remote_output`, empty when that
/// command failed), leaving out protected branches, the base and the checked-out branch
/// `current`; sorted by name.
pub fn merged_branches_from(local_output: &str, remote_output: &str, base_branch: &str, current: &str) -> (r: Vec<BranchInfo>)
    ensures
        sorted_by_name(branch_views(r@)),
        branch_views(r@).to_multiset() == (local_entries(
            local_merged(lines_seq(local_output@), base_branch@, current@),
            remote_merged(lines_seq(remote_output@), base_branch@, current@),
        ) + remote_only_entries(
            local_merged(lines_seq(local_output@), base_branch@, current@),
            remote_merged(lines_seq(remote_output@), base_branch@, current@),
        )).to_multiset(),
        forall|i: int| 0 <= i < r.len() ==> merged_entry_ok(
            #[trigger] branch_views(r@)[i],
            lines_seq(local_output@),
            lines_seq(remote_output@),
            base_branch@,
            current@,
        ),        forall|k: int, n: Seq<char>| #[trigger] local_merged_line(lines_seq(local_output@), k, n, base_branch@, current@)
            ==> has_local_entry(branch_views(r@), n),
        forall|k: int, n: Seq<char>| #[trigger] remote_merged_line(lines_seq(remote_output@), k, n, base_branch@, current@)
            ==> has_remote_entry(branch_views(r@), n),
{
    let local = read_names(local_output, base_branch, current, false);
    let remote = read_names(remote_output, base_branch, current, true);
    let ghost lv = crate::text::string_views(local@);
    let ghost rv = crate::text::string_views(remote@);
    let mut branches: Vec<BranchInfo> = Vec::new();
    let mut i: usize = 0;
    while i < local.len()
        invariant
            i <= local.len(),
            lv == crate::text::string_views(local@),
            rv == crate::text::string_views(remote@),
            branch_views(branches@) == local_entries(lv.take(i as int), rv),
        decreases local.len() - i,
    {
        let has_remote = contains_name(&remote, &local[i]);
        let ghost before = branches@;
        let name = local[i].clone();
        assert(name@ == lv[i as int]);
        branches.push(BranchInfo { name, has_local: true, has_remote, last_activity: None });
        assert(lv.take(i + 1) =~= lv.take(i as int).push(lv[i as int]));
        assert(branch_views(branches@) =~= branch_views(before).push(branches@[i as int]@));
        assert(branch_views(branches@) =~= local_entries(lv.take(i + 1), rv));
        i = i + 1;
    }
    assert(lv.take(local.len() as int) =~= lv);
    let ghost le = branch_views(branches@);
    let mut j: usize = 0;
    while j < remote.len()
        invariant
            j <= remote.len(),
            lv == crate::text::string_views(local@),
            rv == crate::text::string_views(remote@),
            le == local_entries(lv, rv),
            branch_views(branches@) == le + remote_only_entries(lv, rv.take(j as int)),
        decreases remote.len() - j,
    {
        assert(rv.take(j + 1).drop_last() =~= rv.take(j as int));
        let ghost before = branches@;
        if !contains_name(&local, &remote[j]) {
            branches.push(BranchInfo { name: remote[j].clone(), has_local: false, has_remote: true, last_activity: None });
            assert(branch_views(branches@) =~= branch_views(before).push(branches@[branches.len() - 1]@));
        }
        j = j + 1;
    }
    assert(rv.take(remote.len() as int) =~= rv);
    let r = sort_by_name(branches);
    proof {
        let all = le + remote_only_entries(lv, rv);
        lemma_merged_entries_sound(lines_seq(local_output@), lines_seq(remote_output@), base_branch@, current@);
        assert forall|i: int| 0 <= i < r.len() implies merged_entry_ok(
            #[trigger] branch_views(r@)[i],
            lines_seq(local_output@),
            lines_seq(remote_output@),
            base_branch@,
            current@,
        ) by {
            let b = branch_views(r@)[i];
            assert(branch_views(r@).contains(b));
            vstd::seq_lib::to_multiset_contains(branch_views(r@), b);
            vstd::seq_lib::to_multiset_contains(all, b);
            let j = choose|j: int| 0 <= j < all.len() && all[j] == b;
            assert(merged_entry_ok(all[j], lines_seq(local_output@), lines_seq(remote_output@), base_branch@, current@));
        }
        lemma_merged_entries_complete(lines_seq(local_output@), lines_seq(remote_output@), base_branch@, current@);
        assert forall|j: int| 0 <= j < all.len() implies exists|i: int| 0 <= i < r.len() && #[trigger] branch_views(r@)[i] == #[trigger] all[j] by {
            vstd::seq_lib::to_multiset_contains(all, all[j]);
            vstd::seq_lib::to_multiset_contains(branch_views(r@), all[j]);
            assert(all.contains(all[j]));
        }
        assert forall|k: int, n: Seq<char>| #[trigger] local_merged_line(lines_seq(local_output@), k, n, base_branch@, current@)
            implies has_local_entry(branch_views(r@), n) by {
            let j = choose|j: int| 0 <= j < all.len() && (#[trigger] all[j]).name == n && all[j].has_local;
            let i = choose|i: int| 0 <= i < r.len() && #[trigger] branch_views(r@)[i] == all[j];
            assert(branch_views(r@)[i].name == n);
        }
        assert forall|k: int, n: Seq<char>| #[trigger] remote_merged_line(lines_seq(remote_output@), k, n, base_branch@, current@)
            implies has_remote_entry(branch_views(r@), n) by {
            let j = choose|j: int| 0 <= j < all.len() && (#[trigger] all[j]).name == n && all[j].has_remote;
            let i = choose|i: int| 0 <= i < r.len() && #[trigger] branch_views(r@)[i] == all[j];
            assert(branch_views(r@)[i].name == n);
        }
    }
    r
}

// ---------------------------------------------------------------------------
// Stale branches
// ---------------------------------------------------------------------------

/// Branches whose last commit is before this Unix time are stale: `days` days before `now`.
pub open spec fn spec_stale_threshold(now: u64, days: u64) -> u64 {
    let span: int = if days * 86400 > u64::MAX { u64::MAX as int } else { days * 86400 };
    if now >= span {
        (now - span) as u64
    } else {
        0
    }
}

/// The Unix time before which a branch's last commit makes it stale.
pub fn stale_threshold(now: u64, days: u64) -> (r: u64)
    ensures
        r == spec_stale_threshold(now, days),
{
    let span: u64 = if days > u64::MAX / 86400 { u64::MAX } else { days * 86400 };
    if now >= span {
        now - span
    } else {
        0
    }
}

/// A `for-each-ref --format='%(refname:short) %(committerdate:unix)'` line, split at its last
/// space into the ref name and the commit time.
pub open spec fn ref_line(line: Seq<char>) -> Option<(Seq<char>, u64)> {
    match rfind_char(line, ' ') {
        Some(k) => match parse_u64_spec(line.skip(k + 1)) {
            Some(t) => Some((line.take(k), t)),
            None => None,
        },
        None => None,
    }
}

/// A stale branch entry.
pub open spec fn stale_entry(name: Seq<char>, local: bool, t: u64) -> BranchView {
    BranchView {
        name,
        has_local: local,
        has_remote: !local,
        last_activity: Some(spec_format_unix_timestamp(t as nat)),
    }
}

/// The stale local branches of `for-each-ref refs/heads/` output.
pub open spec fn stale_local(lines: Seq<Seq<char>>, current: Seq<char>, threshold: u64) -> Seq<BranchView>
    decreases lines.len(),
{
    if lines.len() == 0 {
        Seq::empty()
    } else {
        let p = stale_local(lines.drop_last(), current, threshold);
        match ref_line(lines.last()) {
            Some((name, t)) => if !spec_is_protected(name) && name != current && t < threshold {
                p.push(stale_entry(name, true, t))
            } else {
                p
            },
            None => p,
        }
    }
}


/// Whether a `for-each-ref refs/heads/` line names a stale local branch: neither protected
/// nor the current branch, last committed before the threshold.
pub open spec fn is_stale_local_line(line: Seq<char>, current: Seq<char>, threshold: u64) -> bool {
    match ref_line(line) {
        Some((name, t)) => !spec_is_protected(name) && name != current && t < threshold,
        None => false,
    }
}

/// The entry of a stale local line.
pub open spec fn stale_local_entry(line: Seq<char>) -> BranchView {
    stale_entry(ref_line(line).unwrap().0, true, ref_line(line).unwrap().1)
}

/// The stale local branches are the stale lines kept in order, each as its entry.
pub proof fn lemma_stale_local_is_filter(lines: Seq<Seq<char>>, current: Seq<char>, threshold: u64)
    ensures
        stale_local(lines, current, threshold) == lines.filter(
            |l: Seq<char>| is_stale_local_line(l, current, threshold),
        ).map_values(|l: Seq<char>| stale_local_entry(l)),
    decreases lines.len(),
{
    let f = |l: Seq<char>| is_stale_local_line(l, current, threshold);
    if lines.len() == 0 {
        assert(lines.filter(f) =~= Seq::<Seq<char>>::empty());
    } else {
        lemma_stale_local_is_filter(lines.drop_last(), current, threshold);
        lines.drop_last().lemma_filter_push(lines.last(), f);
        assert(lines.drop_last().push(lines.last()) =~= lines);
        let prev = lines.drop_last().filter(f);
        if f(lines.last()) {
            assert(prev.push(lines.last()).map_values(|l: Seq<char>| stale_local_entry(l)) =~= prev.map_values(
                |l: Seq<char>| stale_local_entry(l),
            ).push(stale_local_entry(lines.last())));
        }
    }
}

/// Index of the first entry named `name`.
pub open spec fn first_named(v: Seq<BranchView>, name: Seq<char>) -> Option<int>
    decreases v.len(),
{
    if v.len() == 0 {
        None
    } else {
        match first_named(v.drop_last(), name) {
            Some(i) => Some(i),
            None => if v.last().name == name {
                Some(v.len() - 1)
            } else {
                None
            },
        }
    }
}

/// One line of `for-each-ref refs/remotes/origin/` output applied to the stale entries: a stale
/// `origin/<name>` marks the entry `name` as also remote, or adds a remote-only entry.
pub open spec fn stale_remote_step(v: Seq<BranchView>, line: Seq<char>, current: Seq<char>, threshold: u64) -> Seq<BranchView> {
    match ref_line(line) {
        Some((full, t)) => if starts_with(full, "origin/"@) {
            let name = full.skip(7);
            if !spec_is_protected(name) && name != current && !contains_seq(name, "HEAD"@) && t < threshold {
                match first_named(v, name) {
                    Some(i) => v.update(
                        i,
                        BranchView {
                            name: v[i].name,
                            has_local: v[i].has_local,
                            has_remote: true,
                            last_activity: v[i].last_activity,
                        },
                    ),
                    None => v.push(stale_entry(name, false, t)),
                }
            } else {
                v
            }
        } else {
            v
        },
        None => v,
    }
}

pub open spec fn stale_remote(v: Seq<BranchView>, lines: Seq<Seq<char>>, current: Seq<char>, threshold: u64) -> Seq<BranchView>
    decreases lines.len(),
{
    if lines.len() == 0 {
        v
    } else {
        stale_remote_step(stale_remote(v, lines.drop_last(), current, threshold), lines.last(), current, threshold)
    }
}

/// Line `k` of the local `for-each-ref` output is branch `name`, last committed before
/// `threshold`.
pub open spec fn local_ref_before(lines: Seq<Seq<char>>, k: int, name: Seq<char>, threshold: u64) -> bool {
    0 <= k < lines.len() && match ref_line(lines[k]) {
        Some(p) => p.0 == name && p.1 < threshold,
        None => false,
    }
}

/// Line `k` of the remote `for-each-ref` output is `origin/<name>`, last committed before
/// `threshold`.
pub open spec fn remote_ref_before(lines: Seq<Seq<char>>, k: int, name: Seq<char>, threshold: u64) -> bool {
    0 <= k < lines.len() && match ref_line(lines[k]) {
        Some(p) => p.0 == "origin/"@ + name && p.1 < threshold,
        None => false,
    }
}

/// The entry's date is that of the commit time on `line`.
pub open spec fn dated_by(b: BranchView, line: Seq<char>) -> bool {
    b.last_activity == Some(spec_format_unix_timestamp(ref_line(line).unwrap().1 as nat))
}

/// An entry that the stale listing may offer: not protected and not checked out; local only
/// if a local line names it with a time before the threshold (and then dated by such a
/// line), remote only if an `origin/<name>` line does (dating a remote-only entry), never a
/// `HEAD` ref; and at least one of the two.
pub open spec fn stale_entry_ok(
    b: BranchView,
    local_lines: Seq<Seq<char>>,
    remote_lines: Seq<Seq<char>>,
    current: Seq<char>,
    threshold: u64,
) -> bool {
    &&& !spec_is_protected(b.name)
    &&& b.name != current
    &&& b.has_local ==> exists|k: int| #[trigger] local_ref_before(local_lines, k, b.name, threshold) && dated_by(b, local_lines[k])
    &&& b.has_remote ==> !contains_seq(b.name, "HEAD"@) && exists|k: int|
        #[trigger] remote_ref_before(remote_lines, k, b.name, threshold) && (!b.has_local ==> dated_by(b, remote_lines[k]))
    &&& b.has_local || b.has_remote
}

proof fn lemma_stale_local_sound(lines: Seq<Seq<char>>, current: Seq<char>, threshold: u64)
    ensures
        forall|i: int| 0 <= i < stale_local(lines, current, threshold).len() ==> {
            let b = #[trigger] stale_local(lines, current, threshold)[i];
            &&& !b.has_remote
            &&& stale_entry_ok(b, lines, Seq::empty(), current, threshold)
        },
    decreases lines.len(),
{
    if lines.len() > 0 {
        let dl = lines.drop_last();
        lemma_stale_local_sound(dl, current, threshold);
        let p = stale_local(dl, current, threshold);
        let r = stale_local(lines, current, threshold);
        assert forall|i: int| 0 <= i < r.len() implies {
            let b = #[trigger] r[i];
            &&& !b.has_remote
            &&& stale_entry_ok(b, lines, Seq::empty(), current, threshold)
        } by {
            if i < p.len() {
                assert(r[i] == p[i]);
                let k = choose|k: int| #[trigger] local_ref_before(dl, k, p[i].name, threshold) && dated_by(p[i], dl[k]);
                assert(dl[k] == lines[k]);
                assert(local_ref_before(lines, k, r[i].name, threshold));
            } else {
                assert(local_ref_before(lines, lines.len() - 1, r[i].name, threshold));
            }
        }
    }
}

proof fn lemma_stale_remote_sound(
    v: Seq<BranchView>,
    local_lines: Seq<Seq<char>>,
    lines: Seq<Seq<char>>,
    current: Seq<char>,
    threshold: u64,
)
    requires
        forall|i: int| 0 <= i < v.len() ==> !(#[trigger] v[i]).has_remote && stale_entry_ok(v[i], local_lines, Seq::empty(), current, threshold),
    ensures
        forall|i: int| 0 <= i < stale_remote(v, lines, current, threshold).len() ==> stale_entry_ok(
            #[trigger] stale_remote(v, lines, current, threshold)[i],
            local_lines,
            lines,
            current,
            threshold,
        ),
    decreases lines.len(),
{
    if lines.len() == 0 {
        assert forall|i: int| 0 <= i < v.len() implies stale_entry_ok(#[trigger] v[i], local_lines, lines, current, threshold) by {
            assert(!v[i].has_remote);
        }
    } else {
        let dl = lines.drop_last();
        lemma_stale_remote_sound(v, local_lines, dl, current, threshold);
        let w = stale_remote(v, dl, current, threshold);
        assert forall|i: int| 0 <= i < w.len() implies stale_entry_ok(#[trigger] w[i], local_lines, lines, current, threshold) by {
            assert(stale_entry_ok(w[i], local_lines, dl, current, threshold));
            if w[i].has_remote {
                let k = choose|k: int| #[trigger] remote_ref_before(dl, k, w[i].name, threshold) && (!w[i].has_local ==> dated_by(w[i], dl[k]));
                assert(dl[k] == lines[k]);
                assert(remote_ref_before(lines, k, w[i].name, threshold));
            }
        }
        let r = stale_remote(v, lines, current, threshold);
        let last = lines.last();
        let kl = lines.len() - 1;
        assert(lines[kl] == last);
        match ref_line(last) {
            Some((full, t)) => {
                if starts_with(full, "origin/"@) {
                    let name = full.skip(7);
                    reveal_strlit("origin/");
                    assert(full.take(7) == "origin/"@);
                    assert(full =~= "origin/"@ + name);
                    if !spec_is_protected(name) && name != current && !contains_seq(name, "HEAD"@) && t < threshold {
                        assert(remote_ref_before(lines, kl, name, threshold));
                        lemma_first_named(w, name);
                        match first_named(w, name) {
                            Some(i0) => {
                                assert forall|i: int| 0 <= i < r.len() implies stale_entry_ok(#[trigger] r[i], local_lines, lines, current, threshold) by {
                                    if i == i0 {
                                        assert(stale_entry_ok(w[i0], local_lines, lines, current, threshold));
                                        if w[i0].has_local {
                                            let k = choose|k: int| #[trigger] local_ref_before(local_lines, k, w[i0].name, threshold) && dated_by(w[i0], local_lines[k]);
                                            assert(local_ref_before(local_lines, k, r[i].name, threshold) && dated_by(r[i], local_lines[k]));
                                        } else {
                                            let k = choose|k: int| #[trigger] remote_ref_before(lines, k, w[i0].name, threshold) && (!w[i0].has_local ==> dated_by(w[i0], lines[k]));
                                            assert(remote_ref_before(lines, k, r[i].name, threshold) && dated_by(r[i], lines[k]));
                                        }
                                    } else {
                                        assert(r[i] == w[i]);
                                    }
                                }
                            },
                            None => {
                                assert forall|i: int| 0 <= i < r.len() implies stale_entry_ok(#[trigger] r[i], local_lines, lines, current, threshold) by {
                                    if i < w.len() {
                                        assert(r[i] == w[i]);
                                    } else {
                                        assert(r[i] == stale_entry(name, false, t));
                                        assert(dated_by(r[i], lines[kl]));
                                    }
                                }
                            },
                        }
                    }
                }
            },
            None => {},
        }
    }
}

/// Every entry of the stale listing comes from the listings: not protected nor checked out,
/// its local side from a local line last committed before the threshold, its remote side
/// from an `origin/<name>` line last committed before the threshold (never a `HEAD` ref),
/// dated by such a line.
pub proof fn lemma_stale_entries_sound(
    local_lines: Seq<Seq<char>>,
    remote_lines: Seq<Seq<char>>,
    current: Seq<char>,
    threshold: u64,
)
    ensures
        ({
            let all = stale_remote(stale_local(local_lines, current, threshold), remote_lines, current, threshold);
            forall|i: int| 0 <= i < all.len() ==> stale_entry_ok(#[trigger] all[i], local_lines, remote_lines, current, threshold)
        }),
{
    lemma_stale_local_sound(local_lines, current, threshold);
    lemma_stale_remote_sound(stale_local(local_lines, current, threshold), local_lines, remote_lines, current, threshold);
}

/// Line `k` of the local `for-each-ref` output is a stale branch `name`: neither protected
/// nor checked out, last committed before `threshold`.
pub open spec fn local_stale_line(lines: Seq<Seq<char>>, k: int, name: Seq<char>, current: Seq<char>, threshold: u64) -> bool {
    0 <= k < lines.len() && match ref_line(lines[k]) {
        Some(p) => p.0 == name && !spec_is_protected(name) && name != current && p.1 < threshold,
        None => false,
    }
}

/// Line `k` of the remote `for-each-ref` output is a stale `origin/<name>`: neither protected
/// nor checked out nor a `HEAD` ref, last committed before `threshold`.
pub open spec fn remote_stale_line(lines: Seq<Seq<char>>, k: int, name: Seq<char>, current: Seq<char>, threshold: u64) -> bool {
    0 <= k < lines.len() && match ref_line(lines[k]) {
        Some(p) => p.0 == "origin/"@ + name && !spec_is_protected(name) && name != current && !contains_seq(
            name,
            "HEAD"@,
        ) && p.1 < threshold,
        None => false,
    }
}

/// Some entry named `name` is local.
pub open spec fn has_local_entry(v: Seq<BranchView>, name: Seq<char>) -> bool {
    exists|i: int| 0 <= i < v.len() && (#[trigger] v[i]).name == name && v[i].has_local
}

/// Some entry named `name` is on `origin`.
pub open spec fn has_remote_entry(v: Seq<BranchView>, name: Seq<char>) -> bool {
    exists|i: int| 0 <= i < v.len() && (#[trigger] v[i]).name == name && v[i].has_remote
}

proof fn lemma_stale_local_complete(lines: Seq<Seq<char>>, current: Seq<char>, threshold: u64)
    ensures
        forall|k: int, n: Seq<char>| #[trigger] local_stale_line(lines, k, n, current, threshold) ==> has_local_entry(
            stale_local(lines, current, threshold),
            n,
        ),
    decreases lines.len(),
{
    if lines.len() > 0 {
        let dl = lines.drop_last();
        lemma_stale_local_complete(dl, current, threshold);
        let p = stale_local(dl, current, threshold);
        let r = stale_local(lines, current, threshold);
        assert forall|k: int, n: Seq<char>| #[trigger] local_stale_line(lines, k, n, current, threshold) implies has_local_entry(r, n) by {
            if k < dl.len() {
                assert(dl[k] == lines[k]);
                assert(local_stale_line(dl, k, n, current, threshold));
                let i = choose|i: int| 0 <= i < p.len() && (#[trigger] p[i]).name == n && p[i].has_local;
                assert(r[i] == p[i]);
            } else {
                assert(lines[k] == lines.last());
                assert(r[r.len() - 1].name == n && r[r.len() - 1].has_local);
            }
        }
    }
}

proof fn lemma_stale_step_keeps(w: Seq<BranchView>, line: Seq<char>, current: Seq<char>, threshold: u64)
    ensures
        ({
            let r = stale_remote_step(w, line, current, threshold);
            &&& r.len() >= w.len()
            &&& forall|i: int| 0 <= i < w.len() ==> (#[trigger] r[i]).name == w[i].name && (w[i].has_local ==> r[i].has_local)
                && (w[i].has_remote ==> r[i].has_remote)
        }),
{
    match ref_line(line) {
        Some((full, t)) => {
            if starts_with(full, "origin/"@) {
                let name = full.skip(7);
                if !spec_is_protected(name) && name != current && !contains_seq(name, "HEAD"@) && t < threshold {
                    lemma_first_named(w, name);
                }
            }
        },
        None => {},
    }
}

proof fn lemma_stale_step_adds(w: Seq<BranchView>, lines: Seq<Seq<char>>, k: int, n: Seq<char>, current: Seq<char>, threshold: u64)
    requires
        remote_stale_line(lines, k, n, current, threshold),
    ensures
        has_remote_entry(stale_remote_step(w, lines[k], current, threshold), n),
{
    let r = stale_remote_step(w, lines[k], current, threshold);
    let (full, t) = ref_line(lines[k]).unwrap();
    reveal_strlit("origin/");
    assert(full == "origin/"@ + n);
    assert(full.take(7) =~= "origin/"@);
    assert(starts_with(full, "origin/"@));
    assert(full.skip(7) =~= n);
    lemma_first_named(w, n);
    match first_named(w, n) {
        Some(i0) => {
            assert(r[i0].name == n && r[i0].has_remote);
        },
        None => {
            assert(r[r.len() - 1].name == n && r[r.len() - 1].has_remote);
        },
    }
}

proof fn lemma_stale_remote_complete(
    v: Seq<BranchView>,
    local_lines: Seq<Seq<char>>,
    lines: Seq<Seq<char>>,
    current: Seq<char>,
    threshold: u64,
)
    requires
        forall|k: int, n: Seq<char>| #[trigger] local_stale_line(local_lines, k, n, current, threshold) ==> has_local_entry(v, n),
    ensures
        forall|k: int, n: Seq<char>| #[trigger] local_stale_line(local_lines, k, n, current, threshold) ==> has_local_entry(
            stale_remote(v, lines, current, threshold),
            n,
        ),
        forall|k: int, n: Seq<char>| #[trigger] remote_stale_line(lines, k, n, current, threshold) ==> has_remote_entry(
            stale_remote(v, lines, current, threshold),
            n,
        ),
    decreases lines.len(),
{
    if lines.len() > 0 {
        let dl = lines.drop_last();
        lemma_stale_remote_complete(v, local_lines, dl, current, threshold);
        let w = stale_remote(v, dl, current, threshold);
        let r = stale_remote(v, lines, current, threshold);
        assert(r == stale_remote_step(w, lines.last(), current, threshold));
        lemma_stale_step_keeps(w, lines.last(), current, threshold);
        assert forall|k: int, n: Seq<char>| #[trigger] local_stale_line(local_lines, k, n, current, threshold) implies has_local_entry(r, n) by {
            let i = choose|i: int| 0 <= i < w.len() && (#[trigger] w[i]).name == n && w[i].has_local;
            assert(r[i].name == w[i].name);
        }
        assert forall|k: int, n: Seq<char>| #[trigger] remote_stale_line(lines, k, n, current, threshold) implies has_remote_entry(r, n) by {
            if k < dl.len() {
                assert(dl[k] == lines[k]);
                assert(remote_stale_line(dl, k, n, current, threshold));
                let i = choose|i: int| 0 <= i < w.len() && (#[trigger] w[i]).name == n && w[i].has_remote;
                assert(r[i].name == w[i].name);
            } else {
                assert(lines[k] == lines.last());
                lemma_stale_step_adds(w, lines, k, n, current, threshold);
            }
        }
    }
}

/// The stale listing misses nothing: every stale local line has a local entry of its name,
/// and every stale `origin/<name>` line a remote entry of that name.
pub proof fn lemma_stale_entries_complete(
    local_lines: Seq<Seq<char>>,
    remote_lines: Seq<Seq<char>>,
    current: Seq<char>,
    threshold: u64,
)
    ensures
        ({
            let all = stale_remote(stale_local(local_lines, current, threshold), remote_lines, current, threshold);
            &&& forall|k: int, n: Seq<char>| #[trigger] local_stale_line(local_lines, k, n, current, threshold) ==> has_local_entry(all, n)
            &&& forall|k: int, n: Seq<char>| #[trigger] remote_stale_line(remote_lines, k, n, current, threshold) ==> has_remote_entry(all, n)
        }),
{
    lemma_stale_local_complete(local_lines, current, threshold);
    lemma_stale_remote_complete(stale_local(local_lines, current, threshold), local_lines, remote_lines, current, threshold);
}

proof fn lemma_first_named(v: Seq<BranchView>, name: Seq<char>)
    ensures
        match first_named(v, name) {
            Some(i) => 0 <= i < v.len() && v[i].name == name && forall|j: int| 0 <= j < i ==> v[j].name != name,
            None => forall|j: int| 0 <= j < v.len() ==> v[j].name != name,
        },
    decreases v.len(),
{
    if v.len() > 0 {
        lemma_first_named(v.drop_last(), name);
        assert forall|j: int| 0 <= j < v.len() - 1 implies v.drop_last()[j] == v[j] by {}
    }
}

/// Reads one `for-each-ref` line in `s[a..b]`: the name's range and the commit time.
fn read_ref_line(s: &Vec<char>, a: usize, b: usize) -> (r: Option<(usize, u64)>)
    requires
        a <= b <= s.len(),
    ensures
        match (r, ref_line(s@.subrange(a as int, b as int))) {
            (Some((k, t)), Some((name, t2))) => a <= k < b && name == s@.subrange(a as int, k as int) && t == t2,
            (None, None) => true,
            _ => false,
        },
{
    let ghost line = s@.subrange(a as int, b as int);
    match rfind_char_in(s, a, b, ' ') {
        Some(k) => {
            assert(line.skip(k - a + 1) =~= s@.subrange(k + 1, b as int));
            assert(line.take(k - a) =~= s@.subrange(a as int, k as int));
            match parse_u64_in(s, k + 1, b) {
                Some(t) => Some((k, t)),
                None => None,
            }
        },
        None => None,
    }
}

fn find_named(v: &Vec<BranchInfo>, name: &String) -> (r: Option<usize>)
    ensures
        match (r, first_named(branch_views(v@), name@)) {
            (Some(a), Some(b)) => a == b,
            (None, None) => true,
            _ => false,
        },
        r matches Some(a) ==> a < v.len(),
{
    let ghost bv = branch_views(v@);
    proof {
        lemma_first_named(bv, name@);
    }
    let mut i: usize = 0;
    while i < v.len()
        invariant
            i <= v.len(),
            bv == branch_views(v@),
            forall|j: int| 0 <= j < i ==> bv[j].name != name@,
        decreases v.len() - i,
    {
        assert(bv[i as int].name == v@[i as int].name@);
        if v[i].name == *name {
            proof {
                lemma_first_named(bv, name@);
            }
            return Some(i);
        }
        i = i + 1;
    }
    None
}

/// The stale branches, from `for-each-ref` output of `refs/heads/` (`local_output`) and of
/// `refs/remotes/origin/` (`remote_output`, empty when that command failed): branches whose
/// last commit is before `threshold`, leaving out protected branches, the checked-out branch
/// `current` and remote refs naming `HEAD`; sorted by name, each with the date of its last
/// commit (a local branch's, where both exist).
pub fn stale_branches_from(local_output: &str, remote_output: &str, current: &str, threshold: u64) -> (r: Vec<BranchInfo>)
    ensures
        sorted_by_name(branch_views(r@)),
        branch_views(r@).to_multiset() == stale_remote(
            stale_local(lines_seq(local_output@), current@, threshold),
            lines_seq(remote_output@),
            current@,
            threshold,
        ).to_multiset(),
        forall|i: int| 0 <= i < r.len() ==> stale_entry_ok(
            #[trigger] branch_views(r@)[i],
            lines_seq(local_output@),
            lines_seq(remote_output@),
            current@,
            threshold,
        ),        forall|k: int, n: Seq<char>| #[trigger] local_stale_line(lines_seq(local_output@), k, n, current@, threshold)
            ==> has_local_entry(branch_views(r@), n),
        forall|k: int, n: Seq<char>| #[trigger] remote_stale_line(lines_seq(remote_output@), k, n, current@, threshold)
            ==> has_remote_entry(branch_views(r@), n),
{
    let s = str_chars(local_output);
    let lines = line_ranges(&s, 0, s.len());
    assert(s@.subrange(0, s.len() as int) =~= s@);
    let ghost ls = pieces(s@, lines@);
    let mut branches: Vec<BranchInfo> = Vec::new();
    let mut k: usize = 0;
    while k < lines.len()
        invariant
            k <= lines.len(),
            ls == pieces(s@, lines@),
            ls == lines_seq(s@),
            crate::text::ranges_within(lines@, 0, s.len() as int),
            branch_views(branches@) == stale_local(ls.take(k as int), current@, threshold),
        decreases lines.len() - k,
    {
        let (a, b) = lines[k];
        assert(0 <= lines@[k as int].0 <= lines@[k as int].1 <= s.len());
        assert(ls.take(k + 1).drop_last() =~= ls.take(k as int));
        assert(ls.take(k + 1).last() == s@.subrange(a as int, b as int));
        if let Some((e, t)) = read_ref_line(&s, a, b) {
            let name = string_of_range(&s, a, e);
            if !is_protected(name.as_str()) && !str_eq(name.as_str(), current) && t < threshold {
                let date = format_unix_timestamp(t);
                let ghost before = branches@;
                branches.push(BranchInfo { name, has_local: true, has_remote: false, last_activity: Some(date) });
                assert(branch_views(branches@) =~= branch_views(before).push(branches@[branches.len() - 1]@));
            }
        }
        k = k + 1;
    }
    assert(ls.take(lines.len() as int) =~= ls);
    let ghost locals = branch_views(branches@);
    let rs = str_chars(remote_output);
    let rlines = line_ranges(&rs, 0, rs.len());
    assert(rs@.subrange(0, rs.len() as int) =~= rs@);
    let ghost rls = pieces(rs@, rlines@);
    let origin = str_chars("origin/");
    let head = str_chars("HEAD");
    proof {
        reveal_strlit("origin/");
    }
    let mut m: usize = 0;
    while m < rlines.len()
        invariant
            m <= rlines.len(),
            rls == pieces(rs@, rlines@),
            rls == lines_seq(rs@),
            crate::text::ranges_within(rlines@, 0, rs.len() as int),
            origin@ == "origin/"@,
            origin@.len() == 7,
            head@ == "HEAD"@,
            branch_views(branches@) == stale_remote(locals, rls.take(m as int), current@, threshold),
        decreases rlines.len() - m,
    {
        let (a, b) = rlines[m];
        assert(0 <= rlines@[m as int].0 <= rlines@[m as int].1 <= rs.len());
        assert(rls.take(m + 1).drop_last() =~= rls.take(m as int));
        assert(rls.take(m + 1).last() == rs@.subrange(a as int, b as int));
        let ghost before = branches@;
        if let Some((e, t)) = read_ref_line(&rs, a, b) {
            if range_starts_with(&rs, a, e, &origin) {
                assert(rs@.subrange(a as int, e as int).skip(7) =~= rs@.subrange(a + 7, e as int));
                let name = string_of_range(&rs, a + 7, e);
                let name_chars = str_chars(name.as_str());
                let n = name_chars.len();
                assert(name_chars@.subrange(0, n as int) =~= name_chars@);
                if !is_protected(name.as_str()) && !str_eq(name.as_str(), current) && !range_contains(
                    &name_chars,
                    0,
                    n,
                    &head,
                ) && t < threshold {
                    match find_named(&branches, &name) {
                        Some(i) => {
                            branches[i].has_remote = true;
                            assert(branch_views(branches@) =~= branch_views(before).update(
                                i as int,
                                BranchView {
                                    name: branch_views(before)[i as int].name,
                                    has_local: branch_views(before)[i as int].has_local,
                                    has_remote: true,
                                    last_activity: branch_views(before)[i as int].last_activity,
                                },
                            ));
                        },
                        None => {
                            let date = format_unix_timestamp(t);
                            branches.push(BranchInfo { name, has_local: false, has_remote: true, last_activity: Some(date) });
                            assert(branch_views(branches@) =~= branch_views(before).push(branches@[branches.len() - 1]@));
                        },
                    }
                }
            }
        }
        m = m + 1;
    }
    assert(rls.take(rlines.len() as int) =~= rls);
    let ghost all = branch_views(branches@);
    let r = sort_by_name(branches);
    proof {
        lemma_stale_entries_sound(lines_seq(local_output@), lines_seq(remote_output@), current@, threshold);
        assert forall|i: int| 0 <= i < r.len() implies stale_entry_ok(
            #[trigger] branch_views(r@)[i],
            lines_seq(local_output@),
            lines_seq(remote_output@),
            current@,
            threshold,
        ) by {
            let b = branch_views(r@)[i];
            assert(branch_views(r@).contains(b));
            vstd::seq_lib::to_multiset_contains(branch_views(r@), b);
            vstd::seq_lib::to_multiset_contains(all, b);
            let j = choose|j: int| 0 <= j < all.len() && all[j] == b;
            assert(stale_entry_ok(all[j], lines_seq(local_output@), lines_seq(remote_output@), current@, threshold));
        }
        lemma_stale_entries_complete(lines_seq(local_output@), lines_seq(remote_output@), current@, threshold);
        assert forall|j: int| 0 <= j < all.len() implies exists|i: int| 0 <= i < r.len() && #[trigger] branch_views(r@)[i] == #[trigger] all[j] by {
            vstd::seq_lib::to_multiset_contains(all, all[j]);
            vstd::seq_lib::to_multiset_contains(branch_views(r@), all[j]);
            assert(all.contains(all[j]));
        }
        assert forall|k: int, n: Seq<char>| #[trigger] local_stale_line(lines_seq(local_output@), k, n, current@, threshold)
            implies has_local_entry(branch_views(r@), n) by {
            let j = choose|j: int| 0 <= j < all.len() && (#[trigger] all[j]).name == n && all[j].has_local;
            let i = choose|i: int| 0 <= i < r.len() && #[trigger] branch_views(r@)[i] == all[j];
            assert(branch_views(r@)[i].name == n);
        }
        assert forall|k: int, n: Seq<char>| #[trigger] remote_stale_line(lines_seq(remote_output@), k, n, current@, threshold)
            implies has_remote_entry(branch_views(r@), n) by {
            let j = choose|j: int| 0 <= j < all.len() && (#[trigger] all[j]).name == n && all[j].has_remote;
            let i = choose|i: int| 0 <= i < r.len() && #[trigger] branch_views(r@)[i] == all[j];
            assert(branch_views(r@)[i].name == n);
        }
    }
    r
}

// ---------------------------------------------------------------------------
// Deleting
// ---------------------------------------------------------------------------

/// The `git` commands that delete a branch: `branch -d` (or `-D` when forced) where it exists
/// locally, then `push origin --delete` where it exists on `origin`.
pub fn delete_commands(branch: &BranchInfo, force: bool) -> (r: Vec<Vec<String>>)
    ensures
        r.len() == (if branch.has_local { 1int } else { 0 }) + (if branch.has_remote { 1int } else { 0 }),
        branch.has_local ==> r[0]@.len() == 3 && r[0]@[0]@ == "branch"@ && r[0]@[1]@ == (if force {
            "-D"@
        } else {
            "-d"@
        }) && r[0]@[2]@ == branch.name@,
        branch.has_remote ==> ({
            let k = if branch.has_local { 1int } else { 0 };
            r[k]@.len() == 4 && r[k]@[0]@ == "push"@ && r[k]@[1]@ == "origin"@ && r[k]@[2]@ == "--delete"@
                && r[k]@[3]@ == branch.name@
        }),
{
    let mut r: Vec<Vec<String>> = Vec::new();
    if branch.has_local {
        let mut c: Vec<String> = Vec::new();
        c.push(string_of_str("branch"));
        c.push(string_of_str(if force { "-D" } else { "-d" }));
        c.push(branch.name.clone());
        r.push(c);
    }
    if branch.has_remote {
        let mut c: Vec<String> = Vec::new();
        c.push(string_of_str("push"));
        c.push(string_of_str("origin"));
        c.push(string_of_str("--delete"));
        c.push(branch.name.clone());
        r.push(c);
    }
    r
}

/// The message of a failed deletion, prefixed by where it failed.
pub open spec fn failure_text(prefix: Seq<char>, message: Seq<char>) -> Seq<char> {
    prefix + message
}

/// What deleting `branch` came to, given the outcome of the local deletion (present exactly
/// when the branch exists locally) and of the remote deletion (present exactly when it
/// exists on `origin`): `Err` holds the failed command's error message.
pub fn delete_outcome(branch: &BranchInfo, local: Option<Result<(), String>>, remote: Option<Result<(), String>>) -> (r: DeleteResult)
    requires
        local is Some <==> branch.has_local,
        remote is Some <==> branch.has_remote,
    ensures
        r.branch@ == branch.name@,
        r.local_ok == (match local {
            Some(Ok(_)) => Some(true),
            Some(Err(_)) => Some(false),
            None => None,
        }),
        r.remote_ok == (match remote {
            Some(Ok(_)) => Some(true),
            Some(Err(_)) => Some(false),
            None => None,
        }),
        match (local, remote) {
            (Some(Err(l)), Some(Err(m))) => r.error matches Some(e) && e@ == failure_text("local: "@, l@) + "; "@
                + failure_text("remote: "@, m@),
            (Some(Err(l)), _) => r.error matches Some(e) && e@ == failure_text("local: "@, l@),
            (_, Some(Err(m))) => r.error matches Some(e) && e@ == failure_text("remote: "@, m@),
            _ => r.error is None,
        },
{
    let mut result = DeleteResult { branch: branch.name.clone(), local_ok: None, remote_ok: None, error: None };
    match local {
        Some(Ok(_)) => {
            result.local_ok = Some(true);
        },
        Some(Err(e)) => {
            result.local_ok = Some(false);
            let mut v = str_chars("local: ");
            let ec = str_chars(e.as_str());
            crate::text::push_all(&mut v, &ec);
            result.error = Some(crate::text::string_from_chars(&v));
        },
        None => {},
    }
    match remote {
        Some(Ok(_)) => {
            result.remote_ok = Some(true);
        },
        Some(Err(e)) => {
            let mut msg = str_chars("remote: ");
            let ec = str_chars(e.as_str());
            crate::text::push_all(&mut msg, &ec);
            let text = match &result.error {
                Some(existing) => {
                    let mut v = str_chars(existing.as_str());
                    let sep = str_chars("; ");
                    crate::text::push_all(&mut v, &sep);
                    crate::text::push_all(&mut v, &msg);
                    v
                },
                None => msg,
            };
            result.error = Some(crate::text::string_from_chars(&text));
            result.remote_ok = Some(false);
        },
        None => {},
    }
    result
}

} // verus!
