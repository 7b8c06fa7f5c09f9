//! What the database holds: the row count of each of its tables.
use vstd::prelude::*;

use crate::text::{seq_lt, str_lt};

verus! {

broadcast use vstd::string::group_string_axioms;

/// The rows of one table.
#[derive(Debug, Clone)]
pub struct TableRowCount {
    pub table_name: String,
    pub record_count: u64,
}

/// The row counts of the database's own tables, most rows first (then by name), and their
/// sum. A table's share is `record_count / total_rows`.
#[derive(Debug, Clone)]
pub struct DatabaseMetadata {
    pub tables: Vec<TableRowCount>,
    pub total_rows: u64,
}

impl DatabaseMetadata {
    /// No table has more rows than the total.
    pub open spec fn wf(&self) -> bool {
        forall|i: int| 0 <= i < self.tables.len() ==> (#[trigger] self.tables[i]).record_count <= self.total_rows
    }
}

/// SQLite's internal tables, whose names start with `sqlite_`.
pub open spec fn is_internal_table(name: Seq<char>) -> bool {
    name.len() >= 7 && name.take(7) == "sqlite_"@
}

/// The counts of the tables that are not internal, in order.
pub open spec fn own_tables(counts: Seq<(String, u64)>) -> Seq<(String, u64)>
    decreases counts.len(),
{
    if counts.len() == 0 {
        Seq::empty()
    } else {
        own_tables(counts.drop_last()) + if is_internal_table(counts.last().0@) {
            Seq::empty()
        } else {
            seq![counts.last()]
        }
    }
}

pub open spec fn counts_total(counts: Seq<(String, u64)>) -> nat
    decreases counts.len(),
{
    if counts.len() == 0 {
        0
    } else {
        counts_total(counts.drop_last()) + counts.last().1 as nat
    }
}

/// `a` goes before `b`: more rows, or as many and a name that does not come later.
pub open spec fn count_before(a: (String, u64), b: (String, u64)) -> bool {
    a.1 > b.1 || (a.1 == b.1 && !seq_lt(b.0@, a.0@))
}

pub open spec fn table_pairs(v: Seq<TableRowCount>) -> Seq<(String, u64)> {
    v.map_values(|t: TableRowCount| (t.table_name, t.record_count))
}

fn starts_with_sqlite(name: &str) -> (b: bool)
    ensures
        b == is_internal_table(name@),
{
    proof {
        reveal_strlit("sqlite_");
    }
    let c = crate::text::str_chars(name);
    if c.len() < 7 {
        return false;
    }
    let p = crate::text::str_chars("sqlite_");
    let mut i: usize = 0;
    while i < 7
        invariant
            i <= 7,
            c.len() >= 7,
            c@ == name@,
            p@ == "sqlite_"@,
            p@.len() == 7,
            forall|j: int| 0 <= j < i ==> c@[j] == p@[j],
        decreases 7 - i,
    {
        if c[i] != p[i] {
            assert(name@.take(7)[i as int] != "sqlite_"@[i as int]);
            return false;
        }
        i = i + 1;
    }
    assert(name@.take(7) =~= "sqlite_"@);
    true
}

proof fn lemma_total_prefix(v: Seq<(String, u64)>, n: int)
    requires
        0 <= n <= v.len(),
    ensures
        counts_total(v.take(n)) <= counts_total(v),
    decreases v.len() - n,
{
    if n < v.len() {
        lemma_total_prefix(v, n + 1);
        assert(v.take(n + 1).drop_last() =~= v.take(n));
    } else {
        assert(v.take(n) =~= v);
    }
}

proof fn lemma_order(a: (String, u64), b: (String, u64), c: (String, u64))
    ensures
        count_before(a, b) && count_before(b, c) ==> count_before(a, c),
        count_before(a, b) || count_before(b, a),
{
    if count_before(a, b) && count_before(b, c) && a.1 == b.1 && b.1 == c.1 {
        crate::text::lemma_seq_lt_total(c.0@, a.0@);
        if seq_lt(c.0@, a.0@) {
            crate::text::lemma_seq_lt_total(b.0@, a.0@);
            crate::text::lemma_seq_lt_total(c.0@, b.0@);
            if c.0@ != b.0@ && b.0@ != a.0@ {
                crate::text::lemma_seq_lt_transitive(a.0@, b.0@, c.0@);
                crate::text::lemma_seq_lt_asymmetric(a.0@, c.0@);
            }
        }
    }
    crate::text::lemma_seq_lt_total(a.0@, b.0@);
    if seq_lt(a.0@, b.0@) {
        crate::text::lemma_seq_lt_asymmetric(a.0@, b.0@);
    }
}

proof fn lemma_own_prefix(counts: Seq<(String, u64)>, n: int)
    requires
        0 <= n <= counts.len(),
    ensures
        counts_total(own_tables(counts.take(n))) <= counts_total(own_tables(counts)),
    decreases counts.len() - n,
{
    if n < counts.len() {
        lemma_own_prefix(counts, n + 1);
        assert(counts.take(n + 1).drop_last() =~= counts.take(n));
        let a = own_tables(counts.take(n));
        let b = own_tables(counts.take(n + 1));
        if !is_internal_table(counts[n].0@) {
            assert(b == a + seq![counts[n]]);
            assert((a + seq![counts[n]]).drop_last() =~= a);
        } else {
            assert(b =~= a);
        }
    } else {
        assert(counts.take(n) =~= counts);
    }
}

proof fn lemma_element_le_total(v: Seq<(String, u64)>, w: int)
    requires
        0 <= w < v.len(),
    ensures
        v[w].1 <= counts_total(v),
    decreases v.len(),
{
    if w < v.len() - 1 {
        lemma_element_le_total(v.drop_last(), w);
    }
}

fn count_goes_before(a: &(String, u64), b: &(String, u64)) -> (r: bool)
    ensures
        r == count_before(*a, *b),
{
    a.1 > b.1 || (a.1 == b.1 && !str_lt(b.0.as_str(), a.0.as_str()))
}

/// Counts ordered by rows (most first) and then by name.
fn sort_counts(v: Vec<(String, u64)>) -> (out: Vec<(String, u64)>)
    ensures
        out@.to_multiset() == v@.to_multiset(),
        forall|i: int, j: int| 0 <= i < j < out.len() ==> count_before(#[trigger] out@[i], #[trigger] out@[j]),
{
    broadcast use vstd::seq_lib::to_multiset_remove, vstd::seq_lib::to_multiset_insert;

    let mut rest = v;
    let mut out: Vec<(String, u64)> = Vec::new();
    assert(out@.to_multiset().add(rest@.to_multiset()) =~= v@.to_multiset()) by {
        broadcast use vstd::multiset::group_multiset_axioms;

        assert(out@ + rest@ =~= v@);
        vstd::seq_lib::lemma_multiset_commutative(out@, rest@);
    }
    while rest.len() > 0
        invariant
            out@.to_multiset().add(rest@.to_multiset()) == v@.to_multiset(),
            forall|i: int, j: int| 0 <= i < j < out.len() ==> count_before(#[trigger] out@[i], #[trigger] out@[j]),
        decreases rest.len(),
    {
        let ghost rest_before = rest@;
        let ghost out_before = out@;
        let x = rest.remove(0);
        let mut pos: usize = 0;
        while pos < out.len() && count_goes_before(&out[pos], &x)
            invariant
                pos <= out.len(),
                forall|t: int| 0 <= t < pos ==> count_before(#[trigger] out@[t], x),
            ensures
                pos <= out.len(),
                forall|t: int| 0 <= t < pos ==> count_before(#[trigger] out@[t], x),
                pos < out.len() ==> !count_before(out@[pos as int], x),
            decreases out.len() - pos,
        {
            pos = pos + 1;
        }
        let ghost xv = x;
        out.insert(pos, x);
        proof {
            broadcast use vstd::multiset::group_multiset_axioms;

            vstd::seq_lib::to_multiset_remove(rest_before, 0);
            vstd::seq_lib::to_multiset_insert(out_before, pos as int, xv);
            assert(rest_before[0] == xv);
            vstd::seq_lib::to_multiset_contains(rest_before, xv);
            out_before.insert_ensures(pos as int, xv);
            assert(rest_before.remove(0) =~= rest@);
            assert(out_before.insert(pos as int, xv) =~= out@);
            assert(out@.to_multiset().add(rest@.to_multiset()) =~= v@.to_multiset());
            if pos < out_before.len() {
                lemma_order(out_before[pos as int], xv, xv);
            }
            assert forall|i: int, j: int| 0 <= i < j < out.len() implies count_before(#[trigger] out@[i], #[trigger] out@[j]) by {
                if j < pos {
                    assert(out@[i] == out_before[i] && out@[j] == out_before[j]);
                } else if i > pos {
                    assert(out@[i] == out_before[i - 1] && out@[j] == out_before[j - 1]);
                } else if i == pos {
                    assert(out@[j] == out_before[j - 1]);
                    assert(count_before(xv, out_before[pos as int]));
                    if j - 1 > pos {
                        lemma_order(xv, out_before[pos as int], out_before[j - 1]);
                    }
                } else {
                    assert(out@[i] == out_before[i]);
                    if j == pos {
                    } else {
                        assert(out@[j] == out_before[j - 1]);
                        if pos < out_before.len() {
                            lemma_order(out_before[i], xv, out_before[pos as int]);
                            lemma_order(out_before[i], out_before[pos as int], out_before[j - 1]);
                        }
                    }
                }
            }
        }
    }
    assert(out@.to_multiset() =~= v@.to_multiset()) by {
        broadcast use vstd::multiset::group_multiset_axioms;

        assert(out@ + rest@ =~= out@);
        vstd::seq_lib::lemma_multiset_commutative(out@, rest@);
    }
    out
}

/// The row counts of the tables named in `counts`, without SQLite's internal tables,
/// ordered by rows (most first) and then by name, with their sum.
pub fn database_metadata_from(counts: Vec<(String, u64)>) -> (r: DatabaseMetadata)
    requires
        counts_total(own_tables(counts@)) <= u64::MAX,
    ensures
        r.wf(),
        r.total_rows == counts_total(own_tables(counts@)),
        table_pairs(r.tables@).to_multiset() == own_tables(counts@).to_multiset(),
        forall|i: int, j: int| 0 <= i < j < r.tables.len() ==> count_before(
            #[trigger] table_pairs(r.tables@)[i],
            #[trigger] table_pairs(r.tables@)[j],
        ),
{
    let ghost all = own_tables(counts@);
    let mut kept: Vec<(String, u64)> = Vec::new();
    let mut total: u64 = 0;
    let mut i: usize = 0;
    while i < counts.len()
        invariant
            i <= counts.len(),
            all == own_tables(counts@),
            counts_total(all) <= u64::MAX,
            kept@ == own_tables(counts@.take(i as int)),
            total == counts_total(kept@),
        decreases counts.len() - i,
    {
        assert(counts@.take(i + 1).drop_last() =~= counts@.take(i as int));
        assert(counts@.take(i + 1).last() == counts@[i as int]);
        proof {
            lemma_own_prefix(counts@, i + 1);
        }
        if !starts_with_sqlite(counts[i].0.as_str()) {
            let e = (counts[i].0.clone(), counts[i].1);
            let ghost before = kept@;
            kept.push(e);
            assert(kept@.drop_last() =~= before);
            assert(kept@ =~= own_tables(counts@.take(i + 1)));
            assert(counts_total(kept@) == total + counts@[i as int].1);
            total = total + counts[i].1;
        }
        assert(kept@ =~= own_tables(counts@.take(i + 1)));
        i = i + 1;
    }
    assert(counts@.take(counts.len() as int) =~= counts@);
    let sorted = sort_counts(kept);
    let mut tables: Vec<TableRowCount> = Vec::new();
    let mut k: usize = 0;
    while k < sorted.len()
        invariant
            k <= sorted.len(),
            tables.len() == k,
            table_pairs(tables@) == sorted@.take(k as int),
        decreases sorted.len() - k,
    {
        let ghost before = tables@;
        tables.push(TableRowCount { table_name: sorted[k].0.clone(), record_count: sorted[k].1 });
        assert(table_pairs(tables@)[k as int] == sorted@[k as int]);
        assert(table_pairs(tables@) =~= table_pairs(before).push(sorted@[k as int]));
        assert(table_pairs(tables@) =~= sorted@.take(k + 1));
        k = k + 1;
    }
    assert(sorted@.take(sorted.len() as int) =~= sorted@);
    proof {
        assert forall|t: int| 0 <= t < tables.len() implies (#[trigger] tables[t]).record_count <= total by {
            assert(table_pairs(tables@)[t] == sorted@[t]);
            vstd::seq_lib::to_multiset_contains(sorted@, sorted@[t]);
            vstd::seq_lib::to_multiset_contains(kept@, sorted@[t]);
            assert(sorted@.contains(sorted@[t]));
            assert(kept@.contains(sorted@[t]));
            let w = choose|w: int| 0 <= w < kept@.len() && kept@[w] == sorted@[t];
            lemma_element_le_total(kept@, w);
        }
    }
    DatabaseMetadata { tables, total_rows: total }
}

} // verus!
