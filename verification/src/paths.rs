//! Repository roots: their order as paths, and removing repeated ones.
use vstd::prelude::*;

use crate::model::RepositoryTarget;
use crate::text::{
    lemma_seq_lt_irreflexive, lemma_seq_lt_total, lemma_seq_lt_transitive, pieces, ranges_within, seq_lt,
    split_ranges, split_seq, str_chars, str_eq, str_lt, string_of_range,
};

verus! {

broadcast use vstd::string::group_string_axioms;

/// The non-empty `/`-separated parts of a path: the names of its components.
pub open spec fn path_parts(s: Seq<char>) -> Seq<Seq<char>> {
    split_seq(s, '/').filter(|p: Seq<char>| p.len() > 0)
}

/// Lexicographic order of component names: as `Path`'s order compares absolute paths.
pub open spec fn parts_lt(a: Seq<Seq<char>>, b: Seq<Seq<char>>) -> bool
    decreases a.len(),
{
    if a.len() == 0 {
        b.len() > 0
    } else if b.len() == 0 {
        false
    } else if a[0] != b[0] {
        seq_lt(a[0], b[0])
    } else {
        parts_lt(a.drop_first(), b.drop_first())
    }
}

pub open spec fn path_lt(a: Seq<char>, b: Seq<char>) -> bool {
    parts_lt(path_parts(a), path_parts(b))
}

proof fn lemma_parts_irreflexive(a: Seq<Seq<char>>)
    ensures
        !parts_lt(a, a),
    decreases a.len(),
{
    if a.len() > 0 {
        lemma_parts_irreflexive(a.drop_first());
    }
}

proof fn lemma_parts_transitive(a: Seq<Seq<char>>, b: Seq<Seq<char>>, c: Seq<Seq<char>>)
    requires
        parts_lt(a, b),
        parts_lt(b, c),
    ensures
        parts_lt(a, c),
    decreases a.len(),
{
    if a.len() > 0 && b.len() > 0 && c.len() > 0 {
        if a[0] == b[0] && b[0] == c[0] {
            lemma_parts_transitive(a.drop_first(), b.drop_first(), c.drop_first());
        } else if a[0] == b[0] {
            lemma_seq_lt_total(a[0], c[0]);
        } else if b[0] == c[0] {
        } else {
            lemma_seq_lt_transitive(a[0], b[0], c[0]);
            if a[0] == c[0] {
                lemma_seq_lt_irreflexive(a[0]);
            }
        }
    }
}

proof fn lemma_parts_total(a: Seq<Seq<char>>, b: Seq<Seq<char>>)
    ensures
        a == b || parts_lt(a, b) || parts_lt(b, a),
    decreases a.len(),
{
    if a.len() > 0 && b.len() > 0 {
        if a[0] == b[0] {
            lemma_parts_total(a.drop_first(), b.drop_first());
            if a.drop_first() == b.drop_first() {
                assert(a =~= seq![a[0]] + a.drop_first());
                assert(b =~= seq![b[0]] + b.drop_first());
            }
        } else {
            lemma_seq_lt_total(a[0], b[0]);
        }
    } else if a.len() == 0 && b.len() == 0 {
        assert(a =~= b);
    }
}

/// The names of the components of `path`.
fn parts_of(path: &str) -> (r: Vec<String>)
    ensures
        r@.map_values(|p: String| p@) == path_parts(path@),
{
    let c = str_chars(path);
    assert(c@.subrange(0, c.len() as int) =~= c@);
    let rs = split_ranges(&c, 0, c.len(), '/');
    let ghost ps = split_seq(path@, '/');
    let mut r: Vec<String> = Vec::new();
    let mut k: usize = 0;
    while k < rs.len()
        invariant
            k <= rs.len(),
            c@ == path@,
            ranges_within(rs@, 0, c.len() as int),
            pieces(c@, rs@) == ps,
            r@.map_values(|p: String| p@) == ps.take(k as int).filter(|p: Seq<char>| p.len() > 0),
        decreases rs.len() - k,
    {
        let (a, b) = rs[k];
        assert(0 <= rs@[k as int].0 <= rs@[k as int].1 <= c.len());
        assert(ps[k as int] == c@.subrange(a as int, b as int));
        assert(ps.take(k + 1).drop_last() =~= ps.take(k as int));
        assert(ps.take(k + 1).last() == ps[k as int]);
        reveal(Seq::filter);
        if a < b {
            let piece = string_of_range(&c, a, b);
            let ghost before = r@;
            r.push(piece);
            assert(r@.map_values(|p: String| p@) =~= before.map_values(|p: String| p@).push(ps[k as int]));
        } else {
            assert(ps[k as int].len() == 0);
        }
        k = k + 1;
    }
    assert(ps.take(rs.len() as int) =~= ps);
    r
}

/// Whether `a` comes before `b` in the order of paths.
pub fn path_before(a: &str, b: &str) -> (r: bool)
    ensures
        r == path_lt(a@, b@),
{
    let pa = parts_of(a);
    let pb = parts_of(b);
    let ghost va = pa@.map_values(|p: String| p@);
    let ghost vb = pb@.map_values(|p: String| p@);
    let mut i: usize = 0;
    while i < pa.len() && i < pb.len()
        invariant
            i <= pa.len() && i <= pb.len(),
            va == pa@.map_values(|p: String| p@),
            vb == pb@.map_values(|p: String| p@),
            va == path_parts(a@) && vb == path_parts(b@),
            va.take(i as int) == vb.take(i as int),
        decreases pa.len() - i,
    {
        if !str_eq(pa[i].as_str(), pb[i].as_str()) {
            proof {
                lemma_parts_prefix(va, vb, i as int);
            }
            assert(va.skip(i as int)[0] == va[i as int]);
            assert(vb.skip(i as int)[0] == vb[i as int]);
            return str_lt(pa[i].as_str(), pb[i].as_str());
        }
        assert(va.take(i + 1) =~= va.take(i as int).push(va[i as int]));
        assert(vb.take(i + 1) =~= vb.take(i as int).push(vb[i as int]));
        i = i + 1;
    }
    proof {
        lemma_parts_prefix(va, vb, i as int);
    }
    pa.len() == i && pb.len() > i
}

proof fn lemma_parts_prefix(a: Seq<Seq<char>>, b: Seq<Seq<char>>, i: int)
    requires
        0 <= i <= a.len(),
        i <= b.len(),
        a.take(i) == b.take(i),
    ensures
        parts_lt(a, b) == parts_lt(a.skip(i), b.skip(i)),
    decreases i,
{
    if i > 0 {
        assert(a[0] == a.take(i)[0]);
        assert(b[0] == b.take(i)[0]);
        assert(a.drop_first().take(i - 1) =~= a.take(i).drop_first());
        assert(b.drop_first().take(i - 1) =~= b.take(i).drop_first());
        lemma_parts_prefix(a.drop_first(), b.drop_first(), i - 1);
        assert(a.drop_first().skip(i - 1) =~= a.skip(i));
        assert(b.drop_first().skip(i - 1) =~= b.skip(i));
    } else {
        assert(a.skip(0) =~= a);
        assert(b.skip(0) =~= b);
    }
}

pub open spec fn root_views(v: Seq<RepositoryTarget>) -> Seq<Seq<char>> {
    v.map_values(|t: RepositoryTarget| t.root@)
}

/// The roots with repetitions removed, each kept where it first occurs.
pub open spec fn first_occurrences(v: Seq<Seq<char>>) -> Seq<Seq<char>>
    decreases v.len(),
{
    if v.len() == 0 {
        Seq::empty()
    } else {
        let p = first_occurrences(v.drop_last());
        if p.contains(v.last()) {
            p
        } else {
            p.push(v.last())
        }
    }
}

/// The targets without repeated roots, in the order of paths (those whose paths compare
/// equal in the order they came).
pub fn dedup_targets(targets: Vec<RepositoryTarget>) -> (r: Vec<RepositoryTarget>)
    ensures
        root_views(r@).to_multiset() == first_occurrences(root_views(targets@)).to_multiset(),
        forall|i: int, j: int| 0 <= i < j < r.len() ==> !path_lt((#[trigger] r@[j]).root@, (#[trigger] r@[i]).root@),
{
    let ghost all = root_views(targets@);
    let mut kept: Vec<RepositoryTarget> = Vec::new();
    let mut i: usize = 0;
    while i < targets.len()
        invariant
            i <= targets.len(),
            all == root_views(targets@),
            root_views(kept@) == first_occurrences(all.take(i as int)),
        decreases targets.len() - i,
    {
        assert(all.take(i + 1).drop_last() =~= all.take(i as int));
        assert(all.take(i + 1).last() == targets@[i as int].root@);
        let mut seen = false;
        let mut k: usize = 0;
        while k < kept.len()
            invariant
                k <= kept.len(),
                i < targets.len(),
                !seen ==> forall|t: int| 0 <= t < k ==> (#[trigger] kept@[t]).root@ != targets@[i as int].root@,
                seen ==> root_views(kept@).contains(targets@[i as int].root@),
            decreases kept.len() - k,
        {
            if str_eq(kept[k].root.as_str(), targets[i].root.as_str()) {
                seen = true;
                assert(root_views(kept@)[k as int] == kept@[k as int].root@);
            }
            k = k + 1;
        }
        if !seen {
            assert(!root_views(kept@).contains(targets@[i as int].root@)) by {
                if root_views(kept@).contains(targets@[i as int].root@) {
                    let t = choose|t: int| 0 <= t < root_views(kept@).len() && root_views(kept@)[t] == targets@[i as int].root@;
                    assert(kept@[t].root@ == root_views(kept@)[t]);
                }
            }
            let ghost before = kept@;
            kept.push(RepositoryTarget { root: targets[i].root.clone() });
            assert(root_views(kept@) =~= root_views(before).push(targets@[i as int].root@));
        }
        i = i + 1;
    }
    assert(all.take(targets.len() as int) =~= all);
    sort_targets(kept)
}

fn sort_targets(v: Vec<RepositoryTarget>) -> (out: Vec<RepositoryTarget>)
    ensures
        root_views(out@).to_multiset() == root_views(v@).to_multiset(),
        forall|i: int, j: int| 0 <= i < j < out.len() ==> !path_lt((#[trigger] out@[j]).root@, (#[trigger] out@[i]).root@),
{
    broadcast use vstd::seq_lib::to_multiset_remove, vstd::seq_lib::to_multiset_insert;

    let mut rest = v;
    let mut out: Vec<RepositoryTarget> = Vec::new();
    assert(root_views(out@).to_multiset().add(root_views(rest@).to_multiset()) =~= root_views(v@).to_multiset()) by {
        broadcast use vstd::multiset::group_multiset_axioms;

        assert(root_views(out@) + root_views(rest@) =~= root_views(v@));
        vstd::seq_lib::lemma_multiset_commutative(root_views(out@), root_views(rest@));
    }
    while rest.len() > 0
        invariant
            root_views(out@).to_multiset().add(root_views(rest@).to_multiset()) == root_views(v@).to_multiset(),
            forall|i: int, j: int| 0 <= i < j < out.len() ==> !path_lt((#[trigger] out@[j]).root@, (#[trigger] out@[i]).root@),
        decreases rest.len(),
    {
        let ghost rest_before = rest@;
        let ghost out_before = out@;
        let x = rest.remove(0);
        let mut pos: usize = 0;
        while pos < out.len() && !path_before(x.root.as_str(), out[pos].root.as_str())
            invariant
                pos <= out.len(),
                forall|t: int| 0 <= t < pos ==> !path_lt(x.root@, (#[trigger] out@[t]).root@),
            ensures
                pos <= out.len(),
                forall|t: int| 0 <= t < pos ==> !path_lt(x.root@, (#[trigger] out@[t]).root@),
                pos < out.len() ==> path_lt(x.root@, out@[pos as int].root@),
            decreases out.len() - pos,
        {
            pos = pos + 1;
        }
        let ghost xv = x;
        out.insert(pos, x);
        proof {
            broadcast use vstd::multiset::group_multiset_axioms;

            let rv = root_views(rest_before);
            vstd::seq_lib::to_multiset_remove(rv, 0);
            vstd::seq_lib::to_multiset_insert(root_views(out_before), pos as int, xv.root@);
            assert(rv[0] == xv.root@);
            assert(rv.contains(rv[0]));
            vstd::seq_lib::to_multiset_contains(rv, xv.root@);
            out_before.insert_ensures(pos as int, xv);
            assert(rv.remove(0) =~= root_views(rest@));
            assert(root_views(out_before).insert(pos as int, xv.root@) =~= root_views(out@));
            assert(root_views(out@).to_multiset().add(root_views(rest@).to_multiset()) =~= root_views(v@).to_multiset());
            assert forall|i: int, j: int| 0 <= i < j < out.len() implies !path_lt((#[trigger] out@[j]).root@, (#[trigger] out@[i]).root@) by {
                if j < pos {
                    assert(out@[i] == out_before[i] && out@[j] == out_before[j]);
                } else if i > pos {
                    assert(out@[i] == out_before[i - 1] && out@[j] == out_before[j - 1]);
                } else if i == pos {
                    assert(out@[j] == out_before[j - 1]);
                    lemma_parts_total(path_parts(xv.root@), path_parts(out_before[pos as int].root@));
                    if j - 1 > pos {
                        if path_lt(out_before[j - 1].root@, xv.root@) {
                            lemma_parts_transitive(
                                path_parts(out_before[j - 1].root@),
                                path_parts(xv.root@),
                                path_parts(out_before[pos as int].root@),
                            );
                        }
                    } else {
                        if path_lt(out_before[pos as int].root@, xv.root@) {
                            lemma_parts_transitive(
                                path_parts(xv.root@),
                                path_parts(out_before[pos as int].root@),
                                path_parts(xv.root@),
                            );
                            lemma_parts_irreflexive(path_parts(xv.root@));
                        }
                    }
                } else {
                    assert(out@[i] == out_before[i]);
                    if j == pos {
                        assert(!path_lt(xv.root@, out_before[i].root@));
                    } else {
                        assert(out@[j] == out_before[j - 1]);
                    }
                }
            }
        }
    }
    assert(root_views(out@).to_multiset() =~= root_views(v@).to_multiset()) by {
        broadcast use vstd::multiset::group_multiset_axioms;

        assert(root_views(out@) + root_views(rest@) =~= root_views(out@));
        vstd::seq_lib::lemma_multiset_commutative(root_views(out@), root_views(rest@));
    }
    out
}

} // verus!
