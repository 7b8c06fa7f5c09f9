//! Authors of several repositories merged by canonical key, for the report's table of top
//! contributors.
use vstd::prelude::*;

use crate::model::{ContributorStats, RepositoryAnalysis};
use crate::settings::{Settings, UserView, spec_canonical_key};

verus! {

broadcast use vstd::string::group_string_axioms;

/// One merged author: key, name and email of its first row, then commits, lines added,
/// lines deleted and net lines summed over its rows.
pub type AuthorRow = (String, String, String, u64, u64, u64, i64);

/// An author as values: key, name, email, commits, lines added, lines deleted, net lines.
pub type AuthorView = (Seq<char>, Seq<char>, Seq<char>, int, int, int, int);

pub open spec fn author_view(a: AuthorRow) -> AuthorView {
    (a.0@, a.1@, a.2@, a.3 as int, a.4 as int, a.5 as int, a.6 as int)
}

pub open spec fn author_views(v: Seq<AuthorRow>) -> Seq<AuthorView> {
    v.map_values(|a: AuthorRow| author_view(a))
}

pub open spec fn has_author(rows: Seq<AuthorView>, key: Seq<char>) -> bool {
    exists|k: int| 0 <= k < rows.len() && (#[trigger] rows[k]).0 == key
}

/// The rows with one contributor row of `key` added: to that key's author if there is one,
/// else as a new author at the end.
pub open spec fn add_author(rows: Seq<AuthorView>, key: Seq<char>, c: ContributorStats) -> Seq<AuthorView> {
    if has_author(rows, key) {
        let k = choose|k: int| 0 <= k < rows.len() && (#[trigger] rows[k]).0 == key;
        let a = rows[k];
        rows.update(
            k,
            (a.0, a.1, a.2, a.3 + c.commits, a.4 + c.lines_added, a.5 + c.lines_deleted, a.6 + c.net_lines),
        )
    } else {
        rows.push(
            (key, c.name@, c.email@, c.commits as int, c.lines_added as int, c.lines_deleted as int, c.net_lines as int),
        )
    }
}

/// The rows with the contributor rows `cs` added in order.
pub open spec fn add_authors(rows: Seq<AuthorView>, users: Seq<UserView>, cs: Seq<ContributorStats>) -> Seq<AuthorView>
    decreases cs.len(),
{
    if cs.len() == 0 {
        rows
    } else {
        add_author(add_authors(rows, users, cs.drop_last()), spec_canonical_key(users, cs.last().email@), cs.last())
    }
}

/// The contributors of every repository merged by canonical key, in the order in which the
/// keys first occur.
pub open spec fn merged_authors(repos: Seq<RepositoryAnalysis>, users: Seq<UserView>) -> Seq<AuthorView>
    decreases repos.len(),
{
    if repos.len() == 0 {
        Seq::empty()
    } else {
        add_authors(merged_authors(repos.drop_last(), users), users, repos.last().contributions.contributors@)
    }
}

pub open spec fn author_fits(a: AuthorView) -> bool {
    &&& a.3 <= u64::MAX
    &&& a.4 <= u64::MAX
    &&& a.5 <= u64::MAX
    &&& i64::MIN <= a.6 <= i64::MAX
}

pub open spec fn authors_fit(rows: Seq<AuthorView>) -> bool {
    forall|i: int| 0 <= i < rows.len() ==> author_fits(#[trigger] rows[i])
}

/// Every running sum of adding `cs` fits its integer type.
pub open spec fn add_authors_fit(rows: Seq<AuthorView>, users: Seq<UserView>, cs: Seq<ContributorStats>) -> bool
    decreases cs.len(),
{
    if cs.len() == 0 {
        true
    } else {
        add_authors_fit(rows, users, cs.drop_last()) && authors_fit(add_authors(rows, users, cs))
    }
}

/// Every running sum of merging the repositories' contributors fits its integer type.
pub open spec fn merged_authors_fit(repos: Seq<RepositoryAnalysis>, users: Seq<UserView>) -> bool
    decreases repos.len(),
{
    if repos.len() == 0 {
        true
    } else {
        merged_authors_fit(repos.drop_last(), users) && add_authors_fit(
            merged_authors(repos.drop_last(), users),
            users,
            repos.last().contributions.contributors@,
        )
    }
}

pub open spec fn author_keys(rows: Seq<AuthorView>) -> Seq<Seq<char>> {
    rows.map_values(|a: AuthorView| a.0)
}

/// `ranked` holds the authors of `merged`, each once, ordered by commits (most first).
pub open spec fn ranks_authors(ranked: Seq<AuthorView>, merged: Seq<AuthorView>) -> bool {
    &&& ranked.len() == merged.len()
    &&& forall|i: int| 0 <= i < ranked.len() ==> merged.contains(#[trigger] ranked[i])
    &&& forall|j: int| 0 <= j < merged.len() ==> ranked.contains(#[trigger] merged[j])
    &&& forall|i: int, j: int| 0 <= i < j < ranked.len() ==> (#[trigger] ranked[i]).3 >= (#[trigger] ranked[j]).3
}

proof fn lemma_add_author_keys(rows: Seq<AuthorView>, key: Seq<char>, c: ContributorStats)
    requires
        author_keys(rows).no_duplicates(),
    ensures
        author_keys(add_author(rows, key, c)).no_duplicates(),
        has_author(add_author(rows, key, c), key),
{
    let r = add_author(rows, key, c);
    if has_author(rows, key) {
        let k = choose|k: int| 0 <= k < rows.len() && (#[trigger] rows[k]).0 == key;
        assert(author_keys(r) =~= author_keys(rows));
        assert(r[k].0 == key);
    } else {
        assert(author_keys(r) =~= author_keys(rows).push(key));
        assert forall|i: int, j: int| 0 <= i < author_keys(r).len() && 0 <= j < author_keys(r).len() && i != j implies author_keys(r)[i]
            != author_keys(r)[j] by {
            if i == rows.len() as int {
                assert(rows[j].0 == author_keys(rows)[j]);
            } else if j == rows.len() as int {
                assert(rows[i].0 == author_keys(rows)[i]);
            }
        }
        assert(r[rows.len() as int].0 == key);
    }
}

/// The index of `key` among the authors, if it is there.
fn find_author(rows: &Vec<AuthorRow>, key: &String) -> (r: Option<usize>)
    requires
        author_keys(author_views(rows@)).no_duplicates(),
    ensures
        match r {
            Some(k) => k < rows.len() && rows@[k as int].0@ == key@ && has_author(author_views(rows@), key@) && k == (choose|
                t: int,
            | 0 <= t < author_views(rows@).len() && (#[trigger] author_views(rows@)[t]).0 == key@),
            None => !has_author(author_views(rows@), key@),
        },
{
    let ghost vs = author_views(rows@);
    let mut i: usize = 0;
    while i < rows.len()
        invariant
            i <= rows.len(),
            vs == author_views(rows@),
            author_keys(vs).no_duplicates(),
            forall|t: int| 0 <= t < i ==> (#[trigger] vs[t]).0 != key@,
        decreases rows.len() - i,
    {
        if rows[i].0 == *key {
            assert(vs[i as int].0 == key@);
            assert(has_author(vs, key@));
            let ghost c = choose|t: int| 0 <= t < vs.len() && (#[trigger] vs[t]).0 == key@;
            assert(0 <= c < vs.len());
            assert(author_keys(vs).len() == vs.len());
            assert(author_keys(vs)[c] == vs[c].0);
            assert(author_keys(vs)[i as int] == vs[i as int].0);
            assert(c == i);
            return Some(i);
        }
        i = i + 1;
    }
    None
}

/// Adds one contributor row under `key`.
fn add_author_exec(rows: &mut Vec<AuthorRow>, key: String, c: &ContributorStats)
    requires
        author_keys(author_views(old(rows)@)).no_duplicates(),
        authors_fit(add_author(author_views(old(rows)@), key@, *c)),
    ensures
        author_views(final(rows)@) == add_author(author_views(old(rows)@), key@, *c),
        author_keys(author_views(final(rows)@)).no_duplicates(),
{
    let ghost before = author_views(rows@);
    proof {
        lemma_add_author_keys(before, key@, *c);
    }
    match find_author(rows, &key) {
        Some(k) => {
            let ghost after = add_author(before, key@, *c);
            assert(author_fits(after[k as int]));
            let row: AuthorRow = (
                rows[k].0.clone(),
                rows[k].1.clone(),
                rows[k].2.clone(),
                rows[k].3 + c.commits,
                rows[k].4 + c.lines_added,
                rows[k].5 + c.lines_deleted,
                rows[k].6 + c.net_lines,
            );
            rows.set(k, row);
            assert(author_views(rows@) =~= after);
        },
        None => {
            let row: AuthorRow = (
                key,
                c.name.clone(),
                c.email.clone(),
                c.commits,
                c.lines_added,
                c.lines_deleted,
                c.net_lines,
            );
            rows.push(row);
            assert(author_views(rows@) =~= add_author(before, key@, *c));
        },
    }
}

/// The contributors of several repositories merged by canonical key, in the order in which
/// the keys first occur.
fn merge_authors(repos: &Vec<RepositoryAnalysis>, settings: &Settings) -> (r: Vec<AuthorRow>)
    requires
        merged_authors_fit(repos@, settings@),
    ensures
        author_views(r@) == merged_authors(repos@, settings@),
        author_keys(author_views(r@)).no_duplicates(),
{
    let ghost users = settings@;
    let mut rows: Vec<AuthorRow> = Vec::new();
    assert(author_views(rows@) =~= merged_authors(repos@.take(0), users));
    let mut i: usize = 0;
    while i < repos.len()
        invariant
            i <= repos.len(),
            users == settings@,
            merged_authors_fit(repos@, users),
            author_views(rows@) == merged_authors(repos@.take(i as int), users),
            author_keys(author_views(rows@)).no_duplicates(),
        decreases repos.len() - i,
    {
        assert(repos@.take(i + 1).drop_last() =~= repos@.take(i as int));
        assert(repos@.take(i + 1).last() == repos@[i as int]);
        proof {
            lemma_fit_prefix(repos@, users, i + 1);
        }
        let cs = &repos[i].contributions.contributors;
        let ghost base = author_views(rows@);
        let mut j: usize = 0;
        while j < cs.len()
            invariant
                j <= cs.len(),
                users == settings@,
                add_authors_fit(base, users, cs@),
                author_views(rows@) == add_authors(base, users, cs@.take(j as int)),
                author_keys(author_views(rows@)).no_duplicates(),
            decreases cs.len() - j,
        {
            assert(cs@.take(j + 1).drop_last() =~= cs@.take(j as int));
            assert(cs@.take(j + 1).last() == cs@[j as int]);
            proof {
                lemma_add_fit_prefix(base, users, cs@, j + 1);
            }
            let key = settings.canonical_key(cs[j].email.as_str());
            add_author_exec(&mut rows, key, &cs[j]);
            j = j + 1;
        }
        assert(cs@.take(cs.len() as int) =~= cs@);
        i = i + 1;
    }
    assert(repos@.take(repos.len() as int) =~= repos@);
    rows
}

proof fn lemma_fit_prefix(repos: Seq<RepositoryAnalysis>, users: Seq<UserView>, n: int)
    requires
        merged_authors_fit(repos, users),
        0 <= n <= repos.len(),
    ensures
        merged_authors_fit(repos.take(n), users),
    decreases repos.len() - n,
{
    if n < repos.len() {
        lemma_fit_prefix(repos, users, n + 1);
        assert(repos.take(n + 1).drop_last() =~= repos.take(n));
    } else {
        assert(repos.take(n) =~= repos);
    }
}

proof fn lemma_add_fit_prefix(rows: Seq<AuthorView>, users: Seq<UserView>, cs: Seq<ContributorStats>, n: int)
    requires
        add_authors_fit(rows, users, cs),
        0 <= n <= cs.len(),
    ensures
        add_authors_fit(rows, users, cs.take(n)),
        n > 0 ==> authors_fit(add_authors(rows, users, cs.take(n))),
    decreases cs.len() - n,
{
    if n < cs.len() {
        lemma_add_fit_prefix(rows, users, cs, n + 1);
        assert(cs.take(n + 1).drop_last() =~= cs.take(n));
    } else {
        assert(cs.take(n) =~= cs);
    }
}

/// Authors ordered by commits, most first; authors with as many commits keep their order.
fn sort_authors(v: Vec<AuthorRow>) -> (out: Vec<AuthorRow>)
    ensures
        out@.to_multiset() == v@.to_multiset(),
        forall|i: int, j: int| 0 <= i < j < out.len() ==> (#[trigger] out[i]).3 >= (#[trigger] out[j]).3,
{
    broadcast use vstd::seq_lib::to_multiset_remove, vstd::seq_lib::to_multiset_insert;

    let mut rest = v;
    let mut out: Vec<AuthorRow> = Vec::new();
    assert(out@.to_multiset().add(rest@.to_multiset()) =~= v@.to_multiset()) by {
        broadcast use vstd::multiset::group_multiset_axioms;

        assert(out@ + rest@ =~= v@);
        vstd::seq_lib::lemma_multiset_commutative(out@, rest@);
    }
    while rest.len() > 0
        invariant
            out@.to_multiset().add(rest@.to_multiset()) == v@.to_multiset(),
            forall|i: int, j: int| 0 <= i < j < out.len() ==> (#[trigger] out[i]).3 >= (#[trigger] out[j]).3,
        decreases rest.len(),
    {
        let ghost rest_before = rest@;
        let ghost out_before = out@;
        let x = rest.remove(0);
        let mut pos: usize = 0;
        while pos < out.len() && out[pos].3 >= x.3
            invariant
                pos <= out.len(),
                forall|t: int| 0 <= t < pos ==> (#[trigger] out[t]).3 >= x.3,
            ensures
                pos <= out.len(),
                forall|t: int| 0 <= t < pos ==> (#[trigger] out[t]).3 >= x.3,
                pos < out.len() ==> out[pos as int].3 < x.3,
            decreases out.len() - pos,
        {
            pos = pos + 1;
        }
        let ghost xv = x;
        out.insert(pos, x);
        proof {
            broadcast use vstd::multiset::group_multiset_axioms;

            vstd::seq_lib::to_multiset_remove(rest_before, 0);
            vstd::seq_lib::to_multiset_insert(out_before, pos as int, xv);
            assert(rest_before[0] == xv);
            vstd::seq_lib::to_multiset_contains(rest_before, xv);
            out_before.insert_ensures(pos as int, xv);
            assert(rest_before.remove(0) =~= rest@);
            assert(out_before.insert(pos as int, xv) =~= out@);
            assert(out@.to_multiset().add(rest@.to_multiset()) =~= v@.to_multiset());
            assert forall|i: int, j: int| 0 <= i < j < out.len() implies (#[trigger] out[i]).3 >= (#[trigger] out[j]).3 by {
                if j < pos {
                    assert(out[i] == out_before[i] && out[j] == out_before[j]);
                } else if i > pos {
                    assert(out[i] == out_before[i - 1] && out[j] == out_before[j - 1]);
                } else if i == pos {
                    assert(out[j] == out_before[j - 1]);
                    assert(out_before[pos as int].3 < xv.3);
                    if j - 1 > pos {
                        assert(out_before[pos as int].3 >= out_before[j - 1].3);
                    }
                } else {
                    assert(out[i] == out_before[i]);
                    if j == pos {
                        assert(out_before[i].3 >= xv.3);
                    } else {
                        assert(out[j] == out_before[j - 1]);
                    }
                }
            }
        }
    }
    assert(out@.to_multiset() =~= v@.to_multiset()) by {
        broadcast use vstd::multiset::group_multiset_axioms;

        assert(out@ + rest@ =~= out@);
        vstd::seq_lib::lemma_multiset_commutative(out@, rest@);
    }
    out
}

/// The authors of several repositories merged by canonical key and ordered by commits,
/// most first.
pub fn ranked_authors(repos: &Vec<RepositoryAnalysis>, settings: &Settings) -> (r: Vec<AuthorRow>)
    requires
        merged_authors_fit(repos@, settings@),
    ensures
        ranks_authors(author_views(r@), merged_authors(repos@, settings@)),
{
    let rows = merge_authors(repos, settings);
    let ghost merged = author_views(rows@);
    let out = sort_authors(rows);
    proof {
        let ov = author_views(out@);
        vstd::seq_lib::to_multiset_len(out@);
        vstd::seq_lib::to_multiset_len(rows@);
        assert forall|i: int| 0 <= i < ov.len() implies merged.contains(#[trigger] ov[i]) by {
            vstd::seq_lib::to_multiset_contains(out@, out@[i]);
            vstd::seq_lib::to_multiset_contains(rows@, out@[i]);
            assert(out@.contains(out@[i]));
            assert(rows@.contains(out@[i]));
            let t = choose|t: int| 0 <= t < rows@.len() && rows@[t] == out@[i];
            assert(merged[t] == author_view(rows@[t]));
            assert(ov[i] == author_view(out@[i]));
            assert(merged[t] == ov[i]);
        }
        assert forall|j: int| 0 <= j < merged.len() implies ov.contains(#[trigger] merged[j]) by {
            vstd::seq_lib::to_multiset_contains(rows@, rows@[j]);
            vstd::seq_lib::to_multiset_contains(out@, rows@[j]);
            assert(rows@.contains(rows@[j]));
            assert(out@.contains(rows@[j]));
            let t = choose|t: int| 0 <= t < out@.len() && out@[t] == rows@[j];
            assert(merged[j] == author_view(rows@[j]));
            assert(ov[t] == author_view(out@[t]));
            assert(ov[t] == merged[j]);
        }
        assert forall|i: int, j: int| 0 <= i < j < ov.len() implies (#[trigger] ov[i]).3 >= (#[trigger] ov[j]).3 by {
            assert(out[i].3 >= out[j].3);
        }
    }
    out
}

} // verus!
