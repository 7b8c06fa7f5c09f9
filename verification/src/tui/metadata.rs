//! The text of the database screen: where the database is, how large it is, and the rows
//! of each table.
use vstd::prelude::*;

use crate::arith::{round_half_even_div, round_half_even_div_exec};
use crate::report::table::{render_plain_table, rows_views, spec_plain_table};
use crate::store::metadata::{DatabaseMetadata, TableRowCount};
use crate::text::{nat_digits, push_str, push_u64_digits, str_chars, string_from_chars, string_of_str, string_views};

verus! {

broadcast use vstd::string::group_string_axioms;

/// `t` tenths written with one decimal.
pub open spec fn tenths_text(t: nat) -> Seq<char> {
    nat_digits(t / 10) + seq!['.'] + nat_digits(t % 10)
}

/// A size in bytes for people: in MB or KB with one decimal (halves to even), or in bytes
/// below one KB.
pub open spec fn spec_file_size(bytes: nat) -> Seq<char> {
    if bytes >= 1024 * 1024 {
        tenths_text(round_half_even_div(bytes * 10, 1024 * 1024)) + " MB"@
    } else if bytes >= 1024 {
        tenths_text(round_half_even_div(bytes * 10, 1024)) + " KB"@
    } else {
        nat_digits(bytes) + " B"@
    }
}

fn push_tenths(v: &mut Vec<char>, t: u128)
    requires
        t <= u64::MAX,
    ensures
        final(v)@ == old(v)@ + tenths_text(t as nat),
{
    push_u64_digits(v, (t / 10) as u64);
    v.push('.');
    push_u64_digits(v, (t % 10) as u64);
    assert(v@ =~= old(v)@ + tenths_text(t as nat));
}

/// A size in bytes for people: `"1.5 MB"`, `"2.0 KB"` or `"512 B"`.
pub fn format_file_size(bytes: u64) -> (r: String)
    ensures
        r@ == spec_file_size(bytes as nat),
{
    let mut v: Vec<char> = Vec::new();
    if bytes >= 1024 * 1024 {
        let t = round_half_even_div_exec(bytes as u128 * 10, 1024 * 1024);
        assert(t <= u64::MAX) by {
            assert(round_half_even_div(bytes as nat * 10, 1048576) <= bytes as nat * 10 / 1048576 + 1);
        }
        push_tenths(&mut v, t);
        push_str(&mut v, " MB");
    } else if bytes >= 1024 {
        let t = round_half_even_div_exec(bytes as u128 * 10, 1024);
        assert(t <= u64::MAX);
        push_tenths(&mut v, t);
        push_str(&mut v, " KB");
    } else {
        push_u64_digits(&mut v, bytes);
        push_str(&mut v, " B");
    }
    assert(v@ =~= spec_file_size(bytes as nat));
    string_from_chars(&v)
}

/// A table's share of all rows in percent with one decimal (halves to even); 0.0% when
/// there are no rows.
pub open spec fn percent_text(count: nat, total: nat) -> Seq<char> {
    tenths_text(round_half_even_div(count * 1000, total)) + "%"@
}

pub open spec fn metadata_cells(t: TableRowCount, total: nat) -> Seq<Seq<char>> {
    seq![t.table_name@, nat_digits(t.record_count as nat), percent_text(t.record_count as nat, total)]
}

/// What `metadata_text` returns.
pub open spec fn spec_metadata_text(db_path: Seq<char>, file_size: nat, meta: DatabaseMetadata) -> Seq<char> {
    "Database:  "@ + db_path + "\n"@ + "Size:      "@ + spec_file_size(file_size) + " ("@ + nat_digits(file_size) + " bytes)\n\n"@
        + spec_plain_table(
        seq!["table"@, "records"@, "percentage"@],
        meta.tables@.map_values(|t: TableRowCount| metadata_cells(t, meta.total_rows as nat)),
        seq![false, true, true],
        Some(seq!["Total"@, nat_digits(meta.total_rows as nat), "100.0%"@]),
    )
}

fn percent_string(count: u64, total: u64) -> (r: String)
    requires
        count <= total,
    ensures
        r@ == percent_text(count as nat, total as nat),
{
    let t = round_half_even_div_exec(count as u128 * 1000, total as u128);
    proof {
        if total > 0 {
            assert(count as nat * 1000 / total as nat <= 1000) by (nonlinear_arith)
                requires
                    count <= total,
                    total > 0,
            ;
        }
    }
    let mut v: Vec<char> = Vec::new();
    push_tenths(&mut v, t);
    push_str(&mut v, "%");
    assert(v@ =~= percent_text(count as nat, total as nat));
    string_from_chars(&v)
}

fn digits(n: u64) -> (r: String)
    ensures
        r@ == nat_digits(n as nat),
{
    let mut v: Vec<char> = Vec::new();
    push_u64_digits(&mut v, n);
    string_from_chars(&v)
}

/// The database screen: its path, its size, and a table of the rows per table with each
/// table's share and the total.
pub fn metadata_text(db_path: &str, file_size: u64, meta: &DatabaseMetadata) -> (r: String)
    requires
        meta.wf(),
    ensures
        r@ == spec_metadata_text(db_path@, file_size as nat, *meta),
{
    let mut out = str_chars("Database:  ");
    push_str(&mut out, db_path);
    push_str(&mut out, "\n");
    push_str(&mut out, "Size:      ");
    let size = format_file_size(file_size);
    push_str(&mut out, size.as_str());
    push_str(&mut out, " (");
    push_u64_digits(&mut out, file_size);
    push_str(&mut out, " bytes)\n\n");
    let mut headers: Vec<String> = Vec::new();
    headers.push(string_of_str("table"));
    headers.push(string_of_str("records"));
    headers.push(string_of_str("percentage"));
    let mut right: Vec<bool> = Vec::new();
    right.push(false);
    right.push(true);
    right.push(true);
    let mut data: Vec<Vec<String>> = Vec::new();
    let mut i: usize = 0;
    while i < meta.tables.len()
        invariant
            i <= meta.tables.len(),
            meta.wf(),
            data.len() == i,
            forall|j: int| 0 <= j < i ==> string_views((#[trigger] data@[j])@) == metadata_cells(
                meta.tables@[j],
                meta.total_rows as nat,
            ),
        decreases meta.tables.len() - i,
    {
        let t = &meta.tables[i];
        let mut cells: Vec<String> = Vec::new();
        cells.push(t.table_name.clone());
        cells.push(digits(t.record_count));
        cells.push(percent_string(t.record_count, meta.total_rows));
        assert(string_views(cells@) =~= metadata_cells(meta.tables@[i as int], meta.total_rows as nat));
        data.push(cells);
        i = i + 1;
    }
    let mut totals: Vec<String> = Vec::new();
    totals.push(string_of_str("Total"));
    totals.push(digits(meta.total_rows));
    totals.push(string_of_str("100.0%"));
    assert(string_views(headers@) =~= seq!["table"@, "records"@, "percentage"@]);
    assert(right@ =~= seq![false, true, true]);
    assert(string_views(totals@) =~= seq!["Total"@, nat_digits(meta.total_rows as nat), "100.0%"@]);
    assert(rows_views(data@) =~= meta.tables@.map_values(|t: TableRowCount| metadata_cells(t, meta.total_rows as nat)));
    let table = render_plain_table(&headers, &data, &right, Some(&totals));
    push_str(&mut out, table.as_str());
    assert(out@ =~= spec_metadata_text(db_path@, file_size as nat, *meta));
    string_from_chars(&out)
}

} // verus!
