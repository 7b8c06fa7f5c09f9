//! Per-date commit totals: the per-date counts of many contributors merged into one list
//! ordered by date, as a `BTreeMap` from dates to counts iterates.
use vstd::prelude::*;

use crate::text::{
    lemma_seq_lt_asymmetric, lemma_seq_lt_irreflexive, lemma_seq_lt_total,
    lemma_seq_lt_transitive, seq_lt, str_lt,
};

verus! {

broadcast use vstd::string::group_string_axioms;

/// The sum of the counts of the entries for date `d`.
pub open spec fn entries_total(v: Seq<(String, u32)>, d: Seq<char>) -> nat
    decreases v.len(),
{
    if v.len() == 0 {
        0
    } else {
        entries_total(v.drop_last(), d) + if v.last().0@ == d {
            v.last().1 as nat
        } else {
            0nat
        }
    }
}

/// The dates of a list of entries.
pub open spec fn entry_keys(v: Seq<(String, u32)>) -> Seq<Seq<char>> {
    v.map_values(|e: (String, u32)| e.0@)
}

/// Each key comes before the next one.
pub open spec fn keys_increasing(k: Seq<Seq<char>>) -> bool {
    forall|i: int, j: int| 0 <= i < j < k.len() ==> seq_lt(k[i], k[j])
}

/// `n`, or `u32::MAX` when it is larger.
pub open spec fn sat_u32(n: nat) -> u32 {
    if n > u32::MAX {
        u32::MAX
    } else {
        n as u32
    }
}

/// `m` holds each date of `v` once, in increasing order, with the total of its counts
/// (saturated at `u32::MAX`).
pub open spec fn is_date_totals(m: Seq<(String, u32)>, v: Seq<(String, u32)>) -> bool {
    &&& keys_increasing(entry_keys(m))
    &&& entry_keys(m).to_set() == entry_keys(v).to_set()
    &&& forall|i: int| 0 <= i < m.len() ==> (#[trigger] m[i]).1 == sat_u32(entries_total(v, m[i].0@))
}

proof fn lemma_total_step(v: Seq<(String, u32)>, e: (String, u32), d: Seq<char>)
    ensures
        entries_total(v.push(e), d) == entries_total(v, d) + if e.0@ == d {
            e.1 as nat
        } else {
            0nat
        },
{
    assert(v.push(e).drop_last() =~= v);
}

/// In a list whose keys increase, the total of a present key is its count, and that of an
/// absent key is 0.
pub proof fn lemma_total_of_increasing(m: Seq<(String, u32)>, d: Seq<char>)
    requires
        keys_increasing(entry_keys(m)),
    ensures
        forall|i: int| 0 <= i < m.len() && m[i].0@ == d ==> entries_total(m, d) == m[i].1,
        !entry_keys(m).contains(d) ==> entries_total(m, d) == 0,
    decreases m.len(),
{
    if m.len() > 0 {
        let p = m.drop_last();
        assert(entry_keys(p) =~= entry_keys(m).drop_last());
        lemma_total_of_increasing(p, d);
        if m.last().0@ == d {
            assert forall|i: int| 0 <= i < p.len() implies p[i].0@ != d by {
                assert(seq_lt(entry_keys(m)[i], entry_keys(m)[m.len() - 1]));
                lemma_seq_lt_irreflexive(d);
            }
            assert(!entry_keys(p).contains(d)) by {
                if entry_keys(p).contains(d) {
                    let k = choose|k: int| 0 <= k < entry_keys(p).len() && entry_keys(p)[k] == d;
                    assert(p[k].0@ == d);
                }
            }
        }
        assert forall|i: int| 0 <= i < m.len() && m[i].0@ == d implies entries_total(m, d) == m[i].1 by {
            if i < m.len() - 1 {
                assert(m[i] == p[i]);
                if m.last().0@ == d {
                    assert(seq_lt(entry_keys(m)[i], entry_keys(m)[m.len() - 1]));
                    lemma_seq_lt_irreflexive(d);
                }
            }
        }
        if !entry_keys(m).contains(d) {
            assert(m.last().0@ != d) by {
                assert(entry_keys(m)[m.len() - 1] == m.last().0@);
            }
            assert(!entry_keys(p).contains(d)) by {
                if entry_keys(p).contains(d) {
                    let k = choose|k: int| 0 <= k < entry_keys(p).len() && entry_keys(p)[k] == d;
                    assert(entry_keys(m)[k] == d);
                }
            }
        }
    }
}

/// The per-date totals of `v`, ordered by date; a total beyond `u32::MAX` saturates.
pub fn date_totals(v: &Vec<(String, u32)>) -> (m: Vec<(String, u32)>)
    ensures
        is_date_totals(m@, v@),
{
    let mut m: Vec<(String, u32)> = Vec::new();
    let mut i: usize = 0;
    assert(entry_keys(m@).to_set() =~= entry_keys(v@.take(0)).to_set());
    while i < v.len()
        invariant
            i <= v.len(),
            is_date_totals(m@, v@.take(i as int)),
        decreases v.len() - i,
    {
        let ghost p = v@.take(i as int);
        let ghost q = v@.take(i + 1);
        let ghost e = v@[i as int];
        assert(q =~= p.push(e));
        assert(entry_keys(q) =~= entry_keys(p).push(e.0@));
        let d = &v[i].0;
        let c = v[i].1;
        let mut pos: usize = 0;
        while pos < m.len() && str_lt(m[pos].0.as_str(), d.as_str())
            invariant
                pos <= m.len(),
                forall|t: int| 0 <= t < pos ==> seq_lt(m@[t].0@, d@),
            ensures
                pos <= m.len(),
                forall|t: int| 0 <= t < pos ==> seq_lt(m@[t].0@, d@),
                pos < m.len() ==> !seq_lt(m@[pos as int].0@, d@),
            decreases m.len() - pos,
        {
            pos = pos + 1;
        }
        let ghost before = m@;
        proof {
            assert forall|k: Seq<char>| k != d@ implies #[trigger] entries_total(q, k) == entries_total(p, k) by {
                lemma_total_step(p, e, k);
            }
            lemma_total_step(p, e, d@);
        }
        if pos < m.len() && m[pos].0 == *d {
            let t = m[pos].1;
            let name = m[pos].0.clone();
            m.set(pos, (name, t.saturating_add(c)));
            proof {
                assert(entry_keys(m@) =~= entry_keys(before));
                assert(entry_keys(q).to_set() =~= entry_keys(p).to_set()) by {
                    assert(entry_keys(p).contains(d@)) by {
                        assert(entry_keys(before)[pos as int] == d@);
                        assert(entry_keys(before).to_set().contains(d@));
                    }
                    assert forall|x: Seq<char>| entry_keys(q).contains(x) <==> entry_keys(p).contains(x) by {
                        if entry_keys(q).contains(x) {
                            let k = choose|k: int| 0 <= k < entry_keys(q).len() && entry_keys(q)[k] == x;
                            if k < p.len() {
                                assert(entry_keys(p)[k] == x);
                            }
                        }
                        if entry_keys(p).contains(x) {
                            let k = choose|k: int| 0 <= k < entry_keys(p).len() && entry_keys(p)[k] == x;
                            assert(entry_keys(q)[k] == x);
                        }
                    }
                }
                assert forall|j: int| 0 <= j < m@.len() implies (#[trigger] m@[j]).1 == sat_u32(entries_total(q, m@[j].0@)) by {
                    if j != pos {
                        assert(m@[j] == before[j]);
                        assert(seq_lt(entry_keys(before)[j], entry_keys(before)[pos as int])
                            || seq_lt(entry_keys(before)[pos as int], entry_keys(before)[j]));
                        if m@[j].0@ == d@ {
                            lemma_seq_lt_irreflexive(d@);
                        }
                    }
                }
            }
        } else {
            let ghost dv = d@;
            m.insert(pos, (d.clone(), c));
            proof {
                before.insert_ensures(pos as int, m@[pos as int]);
                assert(m@ == before.insert(pos as int, m@[pos as int]));
                assert(entry_keys(m@) =~= entry_keys(before).insert(pos as int, dv));
                if pos < before.len() {
                    lemma_seq_lt_total(before[pos as int].0@, dv);
                    assert(seq_lt(dv, before[pos as int].0@));
                }
                assert forall|x: int, y: int| 0 <= x < y < before.len() implies seq_lt(before[x].0@, before[y].0@) by {
                    assert(entry_keys(before)[x] == before[x].0@);
                    assert(entry_keys(before)[y] == before[y].0@);
                }
                assert(!entry_keys(p).contains(dv)) by {
                    if entry_keys(p).contains(dv) {
                        assert(entry_keys(before).to_set().contains(dv));
                        let k = choose|k: int| 0 <= k < entry_keys(before).len() && entry_keys(before)[k] == dv;
                        if k < pos {
                            lemma_seq_lt_irreflexive(dv);
                        } else if k > pos {
                            lemma_seq_lt_transitive(dv, before[pos as int].0@, before[k].0@);
                            lemma_seq_lt_irreflexive(dv);
                        }
                    }
                }
                assert(entries_total(p, dv) == 0) by {
                    lemma_absent_total(p, dv);
                }
                assert forall|a: int, b: int| 0 <= a < b < m@.len() implies seq_lt(entry_keys(m@)[a], entry_keys(m@)[b]) by {
                    if b == pos {
                        assert(entry_keys(m@)[a] == before[a].0@);
                    } else if a == pos {
                        assert(entry_keys(m@)[b] == before[b - 1].0@);
                        if b - 1 > pos {
                            lemma_seq_lt_transitive(dv, before[pos as int].0@, before[b - 1].0@);
                        }
                    } else if a < pos && b > pos {
                        assert(entry_keys(m@)[a] == before[a].0@);
                        assert(entry_keys(m@)[b] == before[b - 1].0@);
                        assert(seq_lt(before[a].0@, dv));
                        if b - 1 > pos {
                            lemma_seq_lt_transitive(dv, before[pos as int].0@, before[b - 1].0@);
                        }
                        lemma_seq_lt_transitive(before[a].0@, dv, before[b - 1].0@);
                    } else if a > pos {
                        assert(entry_keys(m@)[a] == before[a - 1].0@);
                        assert(entry_keys(m@)[b] == before[b - 1].0@);
                    } else {
                        assert(entry_keys(m@)[a] == before[a].0@);
                        assert(entry_keys(m@)[b] == before[b].0@);
                    }
                }
                assert(entry_keys(m@).to_set() =~= entry_keys(q).to_set()) by {
                    assert forall|x: Seq<char>| entry_keys(m@).contains(x) <==> entry_keys(q).contains(x) by {
                        if entry_keys(m@).contains(x) {
                            let k = choose|k: int| 0 <= k < entry_keys(m@).len() && entry_keys(m@)[k] == x;
                            if k == pos {
                                assert(entry_keys(q)[p.len() as int] == x);
                            } else {
                                let kb = if k < pos { k } else { k - 1 };
                                assert(entry_keys(before)[kb] == x);
                                assert(entry_keys(before).to_set().contains(x));
                                assert(entry_keys(p).contains(x));
                                let kp = choose|kp: int| 0 <= kp < entry_keys(p).len() && entry_keys(p)[kp] == x;
                                assert(entry_keys(q)[kp] == x);
                            }
                        }
                        if entry_keys(q).contains(x) {
                            let k = choose|k: int| 0 <= k < entry_keys(q).len() && entry_keys(q)[k] == x;
                            if k == p.len() {
                                assert(entry_keys(m@)[pos as int] == x);
                            } else {
                                assert(entry_keys(p)[k] == x);
                                assert(entry_keys(before).to_set().contains(x));
                                let kb = choose|kb: int| 0 <= kb < entry_keys(before).len() && entry_keys(before)[kb] == x;
                                if kb < pos {
                                    assert(entry_keys(m@)[kb] == x);
                                } else {
                                    assert(entry_keys(m@)[kb + 1] == x);
                                }
                            }
                        }
                    }
                }
                assert forall|j: int| 0 <= j < m@.len() implies (#[trigger] m@[j]).1 == sat_u32(entries_total(q, m@[j].0@)) by {
                    if j < pos {
                        assert(m@[j] == before[j]);
                        assert(seq_lt(before[j].0@, dv));
                        if before[j].0@ == dv {
                            lemma_seq_lt_irreflexive(dv);
                        }
                    } else if j > pos {
                        assert(m@[j] == before[j - 1]);
                        if before[j - 1].0@ == dv {
                            if j - 1 > pos {
                                lemma_seq_lt_transitive(dv, before[pos as int].0@, before[j - 1].0@);
                            }
                            lemma_seq_lt_irreflexive(dv);
                        }
                    }
                }
            }
        }
        i = i + 1;
    }
    assert(v@.take(v.len() as int) =~= v@);
    m
}

/// A date that no entry names has total 0.
pub proof fn lemma_absent_total(v: Seq<(String, u32)>, d: Seq<char>)
    requires
        !entry_keys(v).contains(d),
    ensures
        entries_total(v, d) == 0,
    decreases v.len(),
{
    if v.len() > 0 {
        let p = v.drop_last();
        assert(entry_keys(p) =~= entry_keys(v).drop_last());
        assert(entry_keys(v)[v.len() - 1] == v.last().0@);
        assert(!entry_keys(p).contains(d)) by {
            if entry_keys(p).contains(d) {
                let k = choose|k: int| 0 <= k < entry_keys(p).len() && entry_keys(p)[k] == d;
                assert(entry_keys(v)[k] == d);
            }
        }
        lemma_absent_total(p, d);
    }
}

} // verus!
