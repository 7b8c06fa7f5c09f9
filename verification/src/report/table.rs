//! Plain-text tables with aligned columns.
use vstd::prelude::*;
use vstd::utf8::encode_utf8;

use crate::analytics::{
    RepoComparisonRow, cpd_keys, cpd_keys_exec, is_ranking, join_with, push_joined, rank_by_ratio,
    row_wf, top3, usize_ints, wd_entries, wd_entries_exec, wd_keys, wd_keys_exec, weekday_short,
    weekday_short_exec,
};
use crate::model::{ContributorStats, RepositoryAnalysis};
use crate::users::{UserActivityRow, UserEffortData};
use crate::text::{
    find_char, find_char_in, lemma_find_char_props, seq_lt, str_lt, nat_digits, pad_left, pad_right, push_all, push_pad_left, push_pad_right, push_repeat,
    push_str, push_u64_digits, repeat_char, str_chars, string_from_chars, string_views,
};

verus! {

broadcast use vstd::string::group_string_axioms;

pub const USERS_CONTRIBUTION_TITLE: &'static str = "Users contribution";

pub const USERS_CONTRIBUTION_DESC: &'static str = "Per-contributor commit counts, lines modified, and files touched.";

pub const ACTIVITY_TITLE: &'static str = "Most active days and hours";

pub const ACTIVITY_DESC: &'static str = "Average commit frequency by weekday and hour for each contributor.";

pub const HEATMAP_TITLE: &'static str = "Activity heatmap";

pub const HEATMAP_DESC: &'static str = "Daily commit activity over the past year, grouped by week.";

pub const COMPARE_REPOS_TITLE: &'static str = "Compare repositories";

pub const COMPARE_REPOS_DESC: &'static str = "Side-by-side comparison of repository activity and commit frequency.";

/// Width of a cell as `str::len` counts it (bytes of UTF-8).
pub open spec fn cell_width(s: Seq<char>) -> nat {
    (encode_utf8(s).len() as usize) as nat
}

/// Column widths: for each header, the widest of the header and the cells below it (the
/// data rows, and the totals row when present).
pub open spec fn column_width(headers: Seq<Seq<char>>, rows: Seq<Seq<Seq<char>>>, i: int) -> nat
    decreases rows.len(),
{
    if rows.len() == 0 {
        cell_width(headers[i])
    } else {
        let m = column_width(headers, rows.drop_last(), i);
        let last = rows.last();
        if i < last.len() && cell_width(last[i]) > m {
            cell_width(last[i])
        } else {
            m
        }
    }
}

/// One table row: the cells padded to their column widths (right- or left-aligned), two
/// spaces apart, missing cells empty.
pub open spec fn table_row(cells: Seq<Seq<char>>, widths: Seq<nat>, right: Seq<bool>) -> Seq<char>
    decreases widths.len(),
{
    if widths.len() == 0 {
        Seq::empty()
    } else {
        let i = widths.len() - 1;
        let cell = if i < cells.len() { cells[i] } else { Seq::empty() };
        let padded = if i < right.len() && right[i] {
            pad_left(cell, widths[i], ' ')
        } else {
            pad_right(cell, widths[i], ' ')
        };
        table_row(cells, widths.drop_last(), right) + (if i > 0 { "  "@ } else { Seq::empty() }) + padded
    }
}

/// A separator row of dashes under each column.
pub open spec fn separator_row(widths: Seq<nat>) -> Seq<char>
    decreases widths.len(),
{
    if widths.len() == 0 {
        Seq::empty()
    } else {
        separator_row(widths.drop_last()) + (if widths.len() > 1 { "  "@ } else { Seq::empty() })
            + repeat_char('-', widths.last())
    }
}

/// The rows of a table as text: the data rows, then the totals row if any.
pub open spec fn body_rows(data: Seq<Seq<Seq<char>>>, totals: Option<Seq<Seq<char>>>) -> Seq<Seq<Seq<char>>> {
    match totals {
        Some(t) => data.push(t),
        None => data,
    }
}

pub open spec fn widths_of(headers: Seq<Seq<char>>, data: Seq<Seq<Seq<char>>>, totals: Option<Seq<Seq<char>>>) -> Seq<nat> {
    Seq::new(headers.len(), |i: int| column_width(headers, body_rows(data, totals), i))
}

/// The rows of data, each followed by a newline.
pub open spec fn data_rows(data: Seq<Seq<Seq<char>>>, widths: Seq<nat>, right: Seq<bool>) -> Seq<char>
    decreases data.len(),
{
    if data.len() == 0 {
        Seq::empty()
    } else {
        data_rows(data.drop_last(), widths, right) + table_row(data.last(), widths, right) + seq!['\n']
    }
}

/// The whole table: header row (left-aligned), separator, data rows, and the totals after
/// another separator.
pub open spec fn spec_plain_table(
    headers: Seq<Seq<char>>,
    data: Seq<Seq<Seq<char>>>,
    right: Seq<bool>,
    totals: Option<Seq<Seq<char>>>,
) -> Seq<char> {
    let widths = widths_of(headers, data, totals);
    let head = table_row(headers, widths, Seq::new(headers.len(), |i: int| false)) + seq!['\n'];
    let sep = separator_row(widths) + seq!['\n'];
    head + sep + data_rows(data, widths, right) + match totals {
        Some(t) => sep + table_row(t, widths, right) + seq!['\n'],
        None => Seq::empty(),
    }
}

pub open spec fn rows_views(data: Seq<Vec<String>>) -> Seq<Seq<Seq<char>>> {
    data.map_values(|r: Vec<String>| string_views(r@))
}

/// Column widths for the table.
fn compute_widths(headers: &Vec<String>, data: &Vec<Vec<String>>, totals: Option<&Vec<String>>) -> (w: Vec<usize>)
    ensures
        w.len() == headers.len(),
        forall|i: int| 0 <= i < headers.len() ==> w[i] as nat == column_width(
            string_views(headers@),
            body_rows(rows_views(data@), match totals { Some(t) => Some(string_views(t@)), None => None }),
            i,
        ),
{
    let ghost hv = string_views(headers@);
    let ghost rows = body_rows(rows_views(data@), match totals { Some(t) => Some(string_views(t@)), None => None });
    let mut w: Vec<usize> = Vec::new();
    let mut i: usize = 0;
    while i < headers.len()
        invariant
            i <= headers.len(),
            hv == string_views(headers@),
            rows == body_rows(rows_views(data@), match totals { Some(t) => Some(string_views(t@)), None => None }),
            w.len() == i,
            forall|j: int| 0 <= j < i ==> w[j] as nat == column_width(hv, rows, j),
        decreases headers.len() - i,
    {
        let mut m: usize = headers[i].as_str().len();
        let mut r: usize = 0;
        while r < data.len()
            invariant
                r <= data.len(),
                i < headers.len(),
                hv == string_views(headers@),
                m as nat == column_width(hv, rows_views(data@).take(r as int), i as int),
            decreases data.len() - r,
        {
            assert(rows_views(data@).take(r + 1).drop_last() =~= rows_views(data@).take(r as int));
            assert(rows_views(data@).take(r + 1).last() == string_views(data@[r as int]@));
            if i < data[r].len() {
                let cw = data[r][i].as_str().len();
                if cw > m {
                    m = cw;
                }
            }
            r = r + 1;
        }
        assert(rows_views(data@).take(data.len() as int) =~= rows_views(data@));
        match totals {
            Some(t) => {
                assert(rows.drop_last() =~= rows_views(data@));
                if i < t.len() {
                    let cw = t[i].as_str().len();
                    if cw > m {
                        m = cw;
                    }
                }
            },
            None => {},
        }
        w.push(m);
        i = i + 1;
    }
    w
}

pub open spec fn usize_nats(w: Seq<usize>) -> Seq<nat> {
    w.map_values(|x: usize| x as nat)
}

/// Appends one row.
fn push_row(out: &mut Vec<char>, cells: &Vec<String>, widths: &Vec<usize>, right: &Vec<bool>)
    ensures
        final(out)@ == old(out)@ + table_row(string_views(cells@), usize_nats(widths@), right@) + seq!['\n'],
{
    let ghost cv = string_views(cells@);
    let ghost wv = usize_nats(widths@);
    let mut i: usize = 0;
    while i < widths.len()
        invariant
            i <= widths.len(),
            cv == string_views(cells@),
            wv == usize_nats(widths@),
            out@ == old(out)@ + table_row(cv, wv.take(i as int), right@),
        decreases widths.len() - i,
    {
        assert(wv.take(i + 1).drop_last() =~= wv.take(i as int));
        if i > 0 {
            push_str(out, "  ");
        }
        let cell = if i < cells.len() { str_chars(cells[i].as_str()) } else { Vec::new() };
        assert(cell@ == (if (i as int) < cv.len() { cv[i as int] } else { Seq::<char>::empty() }));
        let is_right = if i < right.len() { right[i] } else { false };
        if is_right {
            push_pad_left(out, &cell, widths[i], ' ');
        } else {
            push_pad_right(out, &cell, widths[i], ' ');
        }
        proof {
            if i == 0 {
                assert(table_row(cv, wv.take(0), right@) =~= Seq::<char>::empty());
            }
        }
        i = i + 1;
        assert(out@ =~= old(out)@ + table_row(cv, wv.take(i as int), right@));
    }
    assert(wv.take(widths.len() as int) =~= wv);
    out.push('\n');
}

/// Appends a separator row.
fn push_separator(out: &mut Vec<char>, widths: &Vec<usize>)
    ensures
        final(out)@ == old(out)@ + separator_row(usize_nats(widths@)) + seq!['\n'],
{
    let ghost wv = usize_nats(widths@);
    let mut i: usize = 0;
    while i < widths.len()
        invariant
            i <= widths.len(),
            wv == usize_nats(widths@),
            out@ == old(out)@ + separator_row(wv.take(i as int)),
        decreases widths.len() - i,
    {
        assert(wv.take(i + 1).drop_last() =~= wv.take(i as int));
        if i > 0 {
            push_str(out, "  ");
        }
        push_repeat(out, '-', widths[i]);
        proof {
            if i == 0 {
                assert(separator_row(wv.take(0)) =~= Seq::<char>::empty());
            }
        }
        i = i + 1;
        assert(out@ =~= old(out)@ + separator_row(wv.take(i as int)));
    }
    assert(wv.take(widths.len() as int) =~= wv);
    out.push('\n');
}

/// A table of `headers` over `data`, with columns as wide as their widest cell; cells of
/// right-aligned columns are padded on the left. An optional totals row follows a second
/// separator.
pub fn render_plain_table(headers: &Vec<String>, data: &Vec<Vec<String>>, right_align: &Vec<bool>, totals: Option<&Vec<String>>) -> (r: String)
    ensures
        r@ == spec_plain_table(
            string_views(headers@),
            rows_views(data@),
            right_align@,
            match totals {
                Some(t) => Some(string_views(t@)),
                None => None,
            },
        ),
{
    let ghost tv = match totals { Some(t) => Some(string_views(t@)), None => None };
    let widths = compute_widths(headers, data, totals);
    let ghost wv = widths_of(string_views(headers@), rows_views(data@), tv);
    assert(usize_nats(widths@) =~= wv);
    let mut out: Vec<char> = Vec::new();
    let mut left: Vec<bool> = Vec::new();
    let mut i: usize = 0;
    while i < headers.len()
        invariant
            i <= headers.len(),
            left@ == Seq::new(i as nat, |j: int| false),
        decreases headers.len() - i,
    {
        left.push(false);
        i = i + 1;
        assert(left@ =~= Seq::new(i as nat, |j: int| false));
    }
    push_row(&mut out, headers, &widths, &left);
    push_separator(&mut out, &widths);
    let ghost after_head = out@;
    let mut r: usize = 0;
    while r < data.len()
        invariant
            r <= data.len(),
            out@ == after_head + data_rows(rows_views(data@).take(r as int), usize_nats(widths@), right_align@),
        decreases data.len() - r,
    {
        assert(rows_views(data@).take(r + 1).drop_last() =~= rows_views(data@).take(r as int));
        assert(rows_views(data@).take(r + 1).last() == string_views(data@[r as int]@));
        push_row(&mut out, &data[r], &widths, right_align);
        r = r + 1;
    }
    assert(rows_views(data@).take(data.len() as int) =~= rows_views(data@));
    let ghost after_data = out@;
    match totals {
        Some(t) => {
            push_separator(&mut out, &widths);
            push_row(&mut out, t, &widths, right_align);
        },
        None => {},
    }
    string_from_chars(&out)
}

// ---------------------------------------------------------------------------
// Users contribution
// ---------------------------------------------------------------------------

/// `num / den` in hundredths, rounded to nearest with ties to even (0 when `den` is 0).
pub open spec fn ratio_hundredths(num: nat, den: nat) -> nat {
    if den == 0 {
        0
    } else {
        let q = (num * 100) / den;
        let rem = (num * 100) % den;
        if 2 * rem > den || (2 * rem == den && q % 2 == 1) {
            q + 1
        } else {
            q
        }
    }
}

/// `num / den` with two decimals.
pub open spec fn ratio_text(num: nat, den: nat) -> Seq<char> {
    let h = ratio_hundredths(num, den);
    nat_digits(h / 100) + seq!['.'] + pad_left(nat_digits(h % 100), 2, '0')
}

/// `num / den` with two decimals, rounded to nearest with ties to even, `"0.00"` for a zero
/// denominator.
pub fn format_ratio_2dp(num: u64, den: u64) -> (r: String)
    ensures
        r@ == ratio_text(num as nat, den as nat),
{
    let h: u128 = if den == 0 {
        0
    } else {
        let n = num as u128 * 100;
        let d = den as u128;
        let q = n / d;
        let rem = n % d;
        if 2 * rem > d || (2 * rem == d && q % 2 == 1) {
            q + 1
        } else {
            q
        }
    };
    proof {
        if den > 0 {
            let n: int = num as int * 100;
            vstd::arithmetic::div_mod::lemma_div_is_ordered_by_denominator(n, 1, den as int);
            assert(n / 1 == n);
        }
    }
    let whole = (h / 100) as u64;
    let frac = (h % 100) as u64;
    let mut v: Vec<char> = Vec::new();
    push_u64_digits(&mut v, whole);
    v.push('.');
    let fd = crate::text::u64_chars(frac);
    push_pad_left(&mut v, &fd, 2, '0');
    assert(v@ =~= ratio_text(num as nat, den as nat));
    string_from_chars(&v)
}

/// One contributor's row of the contribution table.
#[derive(Debug, Clone)]
pub struct UsersContributionRow {
    pub email: String,
    pub commits: u64,
    pub lines_modified: u64,
    pub files_touched: u64,
}

/// The cells of a contributor's row: email, commits, lines modified, lines per commit,
/// files touched.
pub open spec fn contribution_cells(r: UsersContributionRow) -> Seq<Seq<char>> {
    seq![
        r.email@,
        nat_digits(r.commits as nat),
        nat_digits(r.lines_modified as nat),
        ratio_text(r.lines_modified as nat, r.commits as nat),
        nat_digits(r.files_touched as nat),
    ]
}

pub open spec fn total_commits(rows: Seq<UsersContributionRow>) -> nat
    decreases rows.len(),
{
    if rows.len() == 0 {
        0
    } else {
        total_commits(rows.drop_last()) + rows.last().commits as nat
    }
}

pub open spec fn total_lines(rows: Seq<UsersContributionRow>) -> nat
    decreases rows.len(),
{
    if rows.len() == 0 {
        0
    } else {
        total_lines(rows.drop_last()) + rows.last().lines_modified as nat
    }
}

pub open spec fn total_files(rows: Seq<UsersContributionRow>) -> nat
    decreases rows.len(),
{
    if rows.len() == 0 {
        0
    } else {
        total_files(rows.drop_last()) + rows.last().files_touched as nat
    }
}

/// The totals row.
pub open spec fn contribution_totals(rows: Seq<UsersContributionRow>) -> Seq<Seq<char>> {
    seq![
        "Total"@,
        nat_digits(total_commits(rows)),
        nat_digits(total_lines(rows)),
        ratio_text(total_lines(rows), total_commits(rows)),
        nat_digits(total_files(rows)),
    ]
}

pub open spec fn contribution_headers() -> Seq<Seq<char>> {
    seq!["Email"@, "Commits"@, "Lines Modified"@, "Lines per commit"@, "Files Touched"@]
}

pub open spec fn contribution_alignment() -> Seq<bool> {
    seq![false, true, true, true, true]
}

/// What `render_users_contribution_table(rows)` returns.
pub open spec fn spec_users_contribution_table(rows: Seq<UsersContributionRow>) -> Seq<char> {
    if rows.len() == 0 {
        "No contributor data available."@
    } else {
        USERS_CONTRIBUTION_DESC@ + "\n\n"@ + spec_plain_table(
            contribution_headers(),
            rows.map_values(|r: UsersContributionRow| contribution_cells(r)),
            contribution_alignment(),
            Some(contribution_totals(rows)),
        )
    }
}

/// The sums of the table's columns fit in `u64`.
pub open spec fn contribution_totals_fit(rows: Seq<UsersContributionRow>) -> bool {
    total_commits(rows) <= u64::MAX && total_lines(rows) <= u64::MAX && total_files(rows) <= u64::MAX
}

proof fn lemma_totals_prefix(rows: Seq<UsersContributionRow>, k: int)
    requires
        0 <= k <= rows.len(),
    ensures
        total_commits(rows.take(k)) <= total_commits(rows),
        total_lines(rows.take(k)) <= total_lines(rows),
        total_files(rows.take(k)) <= total_files(rows),
    decreases rows.len() - k,
{
    if k < rows.len() {
        lemma_totals_prefix(rows, k + 1);
        assert(rows.take(k + 1).drop_last() =~= rows.take(k));
    } else {
        assert(rows.take(k) =~= rows);
    }
}

fn digits_string(n: u64) -> (r: String)
    ensures
        r@ == nat_digits(n as nat),
{
    let v = crate::text::u64_chars(n);
    string_from_chars(&v)
}

fn owned(s: &str) -> (r: String)
    ensures
        r@ == s@,
{
    crate::text::string_of_str(s)
}

/// The contribution table: per-contributor commits, lines modified, lines per commit and
/// files touched, with a totals row.
pub fn render_users_contribution_table(rows: &Vec<UsersContributionRow>) -> (r: String)
    requires
        contribution_totals_fit(rows@),
    ensures
        r@ == spec_users_contribution_table(rows@),
{
    if rows.len() == 0 {
        return owned("No contributor data available.");
    }
    let mut headers: Vec<String> = Vec::new();
    headers.push(owned("Email"));
    headers.push(owned("Commits"));
    headers.push(owned("Lines Modified"));
    headers.push(owned("Lines per commit"));
    headers.push(owned("Files Touched"));
    assert(string_views(headers@) =~= contribution_headers());
    let mut right: Vec<bool> = Vec::new();
    right.push(false);
    right.push(true);
    right.push(true);
    right.push(true);
    right.push(true);
    assert(right@ =~= contribution_alignment());
    let mut data: Vec<Vec<String>> = Vec::new();
    let mut tc: u64 = 0;
    let mut tl: u64 = 0;
    let mut tf: u64 = 0;
    let mut i: usize = 0;
    while i < rows.len()
        invariant
            i <= rows.len(),
            contribution_totals_fit(rows@),
            data.len() == i,
            forall|j: int| 0 <= j < i ==> string_views((#[trigger] data@[j])@) == contribution_cells(rows@[j]),
            tc == total_commits(rows@.take(i as int)),
            tl == total_lines(rows@.take(i as int)),
            tf == total_files(rows@.take(i as int)),
        decreases rows.len() - i,
    {
        assert(rows@.take(i + 1).drop_last() =~= rows@.take(i as int));
        proof {
            lemma_totals_prefix(rows@, i + 1);
        }
        let row = &rows[i];
        let mut cells: Vec<String> = Vec::new();
        cells.push(row.email.clone());
        cells.push(digits_string(row.commits));
        cells.push(digits_string(row.lines_modified));
        cells.push(format_ratio_2dp(row.lines_modified, row.commits));
        cells.push(digits_string(row.files_touched));
        assert(string_views(cells@) =~= contribution_cells(rows@[i as int]));
        data.push(cells);
        tc = tc + row.commits;
        tl = tl + row.lines_modified;
        tf = tf + row.files_touched;
        i = i + 1;
    }
    assert(rows@.take(rows.len() as int) =~= rows@);
    assert(rows_views(data@) =~= rows@.map_values(|r: UsersContributionRow| contribution_cells(r)));
    let mut totals: Vec<String> = Vec::new();
    totals.push(owned("Total"));
    totals.push(digits_string(tc));
    totals.push(digits_string(tl));
    totals.push(format_ratio_2dp(tl, tc));
    totals.push(digits_string(tf));
    assert(string_views(totals@) =~= contribution_totals(rows@));
    let table = render_plain_table(&headers, &data, &right, Some(&totals));
    let mut v = str_chars(USERS_CONTRIBUTION_DESC);
    push_str(&mut v, "\n\n");
    let tv = str_chars(table.as_str());
    push_all(&mut v, &tv);
    string_from_chars(&v)
}


// ---------------------------------------------------------------------------
// Most active days and hours
// ---------------------------------------------------------------------------

/// The cells of a user's row: identifier, most active weekday, and the commits per active
/// day on that weekday, per active day, per active bucket in the most active hour, and per
/// active bucket.
pub open spec fn activity_cells(r: UserActivityRow) -> Seq<Seq<char>> {
    seq![
        r.identifier@,
        r.most_active_week_day@,
        ratio_text(r.best_day_commits as nat, r.best_day_active_days as nat),
        ratio_text(r.commits as nat, r.active_days as nat),
        ratio_text(r.best_hour_commits as nat, r.best_hour_active_buckets as nat),
        ratio_text(r.commits as nat, r.active_hour_buckets as nat),
    ]
}

pub open spec fn activity_headers() -> Seq<Seq<char>> {
    seq!["Email"@, "Day"@, "C/D (best)"@, "C/D"@, "C/H (best)"@, "C/H"@]
}

pub open spec fn activity_alignment() -> Seq<bool> {
    seq![false, false, true, true, true, true]
}

pub open spec fn activity_legend() -> Seq<char> {
    ACTIVITY_DESC@ + "\n\n"@ + "Legend:\n"@ + "  Day         Most active week day\n"@
        + "  C/D (best)  Avg commits per active day on the most active weekday\n"@
        + "  C/D         Avg commits per active day\n"@
        + "  C/H (best)  Avg commits per active hour-bucket on the most active hour\n"@
        + "  C/H         Avg commits per active hour-bucket\n"@ + "\n"@
}

/// What `render_user_activity_table(rows)` returns.
pub open spec fn spec_user_activity_table(rows: Seq<UserActivityRow>) -> Seq<char> {
    if rows.len() == 0 {
        "No activity data available."@
    } else {
        activity_legend() + spec_plain_table(
            activity_headers(),
            rows.map_values(|r: UserActivityRow| activity_cells(r)),
            activity_alignment(),
            None,
        )
    }
}

/// The table of most active days and hours per user, under a legend.
pub fn render_user_activity_table(rows: &Vec<UserActivityRow>) -> (r: String)
    ensures
        r@ == spec_user_activity_table(rows@),
{
    if rows.len() == 0 {
        return owned("No activity data available.");
    }
    let mut v = str_chars(ACTIVITY_DESC);
    push_str(&mut v, "\n\n");
    push_str(&mut v, "Legend:\n");
    push_str(&mut v, "  Day         Most active week day\n");
    push_str(&mut v, "  C/D (best)  Avg commits per active day on the most active weekday\n");
    push_str(&mut v, "  C/D         Avg commits per active day\n");
    push_str(&mut v, "  C/H (best)  Avg commits per active hour-bucket on the most active hour\n");
    push_str(&mut v, "  C/H         Avg commits per active hour-bucket\n");
    push_str(&mut v, "\n");
    assert(v@ =~= activity_legend());
    let mut headers: Vec<String> = Vec::new();
    headers.push(owned("Email"));
    headers.push(owned("Day"));
    headers.push(owned("C/D (best)"));
    headers.push(owned("C/D"));
    headers.push(owned("C/H (best)"));
    headers.push(owned("C/H"));
    assert(string_views(headers@) =~= activity_headers());
    let mut right: Vec<bool> = Vec::new();
    right.push(false);
    right.push(false);
    right.push(true);
    right.push(true);
    right.push(true);
    right.push(true);
    assert(right@ =~= activity_alignment());
    let mut data: Vec<Vec<String>> = Vec::new();
    let mut i: usize = 0;
    while i < rows.len()
        invariant
            i <= rows.len(),
            data.len() == i,
            forall|j: int| 0 <= j < i ==> string_views((#[trigger] data@[j])@) == activity_cells(rows@[j]),
        decreases rows.len() - i,
    {
        let row = &rows[i];
        let mut cells: Vec<String> = Vec::new();
        cells.push(row.identifier.clone());
        cells.push(row.most_active_week_day.clone());
        cells.push(format_ratio_2dp(row.best_day_commits, row.best_day_active_days));
        cells.push(format_ratio_2dp(row.commits, row.active_days));
        cells.push(format_ratio_2dp(row.best_hour_commits, row.best_hour_active_buckets));
        cells.push(format_ratio_2dp(row.commits, row.active_hour_buckets));
        assert(string_views(cells@) =~= activity_cells(rows@[i as int]));
        data.push(cells);
        i = i + 1;
    }
    assert(rows_views(data@) =~= rows@.map_values(|r: UserActivityRow| activity_cells(r)));
    let table = render_plain_table(&headers, &data, &right, None);
    let tv = str_chars(table.as_str());
    push_all(&mut v, &tv);
    string_from_chars(&v)
}

// ---------------------------------------------------------------------------
// One user's effort
// ---------------------------------------------------------------------------

/// `ext (count)` for each extension, separated by `", "`; `-` when there are none.
pub open spec fn extensions_text(v: Seq<(String, u64)>) -> Seq<char>
    decreases v.len(),
{
    if v.len() == 0 {
        "-"@
    } else if v.len() == 1 {
        v[0].0@ + " ("@ + nat_digits(v[0].1 as nat) + ")"@
    } else {
        extensions_text(v.drop_last()) + ", "@ + v.last().0@ + " ("@ + nat_digits(v.last().1 as nat) + ")"@
    }
}

/// The rows of the effort table: a label and a value each.
pub open spec fn effort_cells(e: UserEffortData) -> Seq<Seq<Seq<char>>> {
    seq![
        seq!["Name"@, e.name@],
        seq!["Identifier"@, e.identifier@],
        seq!["Period"@, e.first_commit@ + " .. "@ + e.last_commit@],
        seq!["Most active weekday"@, e.most_active_weekday@],
        seq!["C/D (most active weekday)"@, ratio_text(e.most_active_weekday_commits as nat, e.most_active_weekday_active_days as nat)],
        seq!["Least active weekday"@, e.least_active_weekday@],
        seq!["C/D (least active weekday)"@, ratio_text(e.least_active_weekday_commits as nat, e.least_active_weekday_active_days as nat)],
        seq!["C/D"@, ratio_text(e.commits as nat, e.active_days as nat)],
        seq!["Files per commit"@, ratio_text(e.files_touched as nat, e.commits as nat)],
        seq!["Files per day"@, ratio_text(e.files_touched as nat, e.active_days as nat)],
        seq!["Lines per commit"@, ratio_text(e.lines_modified as nat, e.commits as nat)],
        seq!["Lines per day"@, ratio_text(e.lines_modified as nat, e.active_days as nat)],
        seq!["Top extensions"@, extensions_text(e.top_extensions@)],
    ]
}

/// `text` splits at a line start into `pre`, a two-column row of `label` and `value` (each
/// padded, two spaces apart) ending its line, and `post`.
pub open spec fn row_at(
    text: Seq<char>,
    pre: Seq<char>,
    label: Seq<char>,
    value: Seq<char>,
    w0: nat,
    w1: nat,
    post: Seq<char>,
) -> bool {
    &&& pre.len() > 0
    &&& pre.last() == '\n'
    &&& text == pre + pad_right(label, w0, ' ') + "  "@ + pad_right(value, w1, ' ') + seq!['\n'] + post
}

/// `text` has a line that is the row `label`, `value` of a two-column table.
pub open spec fn has_row(text: Seq<char>, label: Seq<char>, value: Seq<char>) -> bool {
    exists|pre: Seq<char>, w0: nat, w1: nat, post: Seq<char>| #[trigger] row_at(text, pre, label, value, w0, w1, post)
}

proof fn lemma_data_rows_append(a: Seq<Seq<Seq<char>>>, b: Seq<Seq<Seq<char>>>, widths: Seq<nat>, right: Seq<bool>)
    ensures
        data_rows(a + b, widths, right) == data_rows(a, widths, right) + data_rows(b, widths, right),
    decreases b.len(),
{
    if b.len() > 0 {
        lemma_data_rows_append(a, b.drop_last(), widths, right);
        assert((a + b).drop_last() =~= a + b.drop_last());
        assert((a + b).last() == b.last());
    } else {
        assert(a + b =~= a);
    }
}

proof fn lemma_data_rows_newline(a: Seq<Seq<Seq<char>>>, widths: Seq<nat>, right: Seq<bool>)
    ensures
        data_rows(a, widths, right).len() > 0 ==> data_rows(a, widths, right).last() == '\n',
{
}

/// Every row of a two-column table, left-aligned, under a title ending in a newline, is one
/// line of the text: its label and its value, each padded, two spaces apart.
pub proof fn lemma_two_column_rows(title: Seq<char>, headers: Seq<Seq<char>>, cells: Seq<Seq<Seq<char>>>, k: int)
    requires
        title.len() > 0,
        title.last() == '\n',
        headers.len() == 2,
        0 <= k < cells.len(),
        cells[k].len() == 2,
    ensures
        has_row(title + spec_plain_table(headers, cells, seq![false, false], None), cells[k][0], cells[k][1]),
{
    let right = seq![false, false];
    let widths = widths_of(headers, cells, None);
    let head = table_row(headers, widths, Seq::new(headers.len(), |i: int| false)) + seq!['\n'];
    let sep = separator_row(widths) + seq!['\n'];
    let text = title + spec_plain_table(headers, cells, right, None);
    let a = cells.take(k);
    let b = cells.skip(k + 1);
    assert(cells =~= a + seq![cells[k]] + b);
    lemma_data_rows_append(a + seq![cells[k]], b, widths, right);
    lemma_data_rows_append(a, seq![cells[k]], widths, right);
    let one = seq![cells[k]];
    assert(one.drop_last() =~= Seq::<Seq<Seq<char>>>::empty());
    assert(data_rows(one.drop_last(), widths, right) == Seq::<char>::empty());
    assert(one.last() == cells[k]);
    assert(data_rows(one, widths, right) =~= table_row(cells[k], widths, right) + seq!['\n']);
    assert(widths.len() == 2);
    assert(widths.drop_last().drop_last() =~= Seq::<nat>::empty());
    let row = pad_right(cells[k][0], widths[0], ' ') + "  "@ + pad_right(cells[k][1], widths[1], ' ');
    let w1s = widths.drop_last();
    assert(w1s.len() == 1 && w1s[0] == widths[0]);
    assert(table_row(cells[k], w1s.drop_last(), right) == Seq::<char>::empty());
    assert(right[0] == false && right[1] == false);
    assert(table_row(cells[k], w1s, right) =~= pad_right(cells[k][0], widths[0], ' '));
    assert(table_row(cells[k], widths, right) =~= row);
    let pre = title + head + sep + data_rows(a, widths, right);
    let post = data_rows(b, widths, right);
    lemma_data_rows_newline(a, widths, right);
    assert(pre.last() == '\n');
    assert(text =~= pre + pad_right(cells[k][0], widths[0], ' ') + "  "@ + pad_right(cells[k][1], widths[1], ' ') + seq!['\n'] + post);
    assert(row_at(text, pre, cells[k][0], cells[k][1], widths[0], widths[1], post));
}

/// The effort table shows each measure of the effort data as the row of its label: the
/// ratios divide the named counts (commits or active days) with two decimals.
pub proof fn lemma_effort_table_rows(e: UserEffortData)
    ensures
        has_row(spec_user_effort_table(e), "Name"@, e.name@),
        has_row(spec_user_effort_table(e), "Identifier"@, e.identifier@),
        has_row(spec_user_effort_table(e), "Period"@, e.first_commit@ + " .. "@ + e.last_commit@),
        has_row(spec_user_effort_table(e), "Most active weekday"@, e.most_active_weekday@),
        has_row(
            spec_user_effort_table(e),
            "C/D (most active weekday)"@,
            ratio_text(e.most_active_weekday_commits as nat, e.most_active_weekday_active_days as nat),
        ),
        has_row(spec_user_effort_table(e), "Least active weekday"@, e.least_active_weekday@),
        has_row(
            spec_user_effort_table(e),
            "C/D (least active weekday)"@,
            ratio_text(e.least_active_weekday_commits as nat, e.least_active_weekday_active_days as nat),
        ),
        has_row(spec_user_effort_table(e), "C/D"@, ratio_text(e.commits as nat, e.active_days as nat)),
        has_row(spec_user_effort_table(e), "Files per commit"@, ratio_text(e.files_touched as nat, e.commits as nat)),
        has_row(spec_user_effort_table(e), "Files per day"@, ratio_text(e.files_touched as nat, e.active_days as nat)),
        has_row(spec_user_effort_table(e), "Lines per commit"@, ratio_text(e.lines_modified as nat, e.commits as nat)),
        has_row(spec_user_effort_table(e), "Lines per day"@, ratio_text(e.lines_modified as nat, e.active_days as nat)),
        has_row(spec_user_effort_table(e), "Top extensions"@, extensions_text(e.top_extensions@)),
{
    let title = "User effort"@ + "\n\n"@;
    reveal_strlit("\n\n");
    assert(title.last() == '\n');
    let c = effort_cells(e);
    let h = seq!["Metric"@, "Value"@];
    assert(spec_user_effort_table(e) == title + spec_plain_table(h, c, seq![false, false], None));
    lemma_two_column_rows(title, h, c, 0);
    lemma_two_column_rows(title, h, c, 1);
    lemma_two_column_rows(title, h, c, 2);
    lemma_two_column_rows(title, h, c, 3);
    lemma_two_column_rows(title, h, c, 4);
    lemma_two_column_rows(title, h, c, 5);
    lemma_two_column_rows(title, h, c, 6);
    lemma_two_column_rows(title, h, c, 7);
    lemma_two_column_rows(title, h, c, 8);
    lemma_two_column_rows(title, h, c, 9);
    lemma_two_column_rows(title, h, c, 10);
    lemma_two_column_rows(title, h, c, 11);
    lemma_two_column_rows(title, h, c, 12);
}

/// What `render_user_effort_table(e)` returns.
pub open spec fn spec_user_effort_table(e: UserEffortData) -> Seq<char> {
    "User effort"@ + "\n\n"@ + spec_plain_table(seq!["Metric"@, "Value"@], effort_cells(e), seq![false, false], None)
}

fn extensions_string(v: &Vec<(String, u64)>) -> (r: String)
    ensures
        r@ == extensions_text(v@),
{
    if v.len() == 0 {
        return owned("-");
    }
    let mut out: Vec<char> = Vec::new();
    let mut i: usize = 0;
    while i < v.len()
        invariant
            0 < v.len(),
            i <= v.len(),
            i > 0 ==> out@ == extensions_text(v@.take(i as int)),
            i == 0 ==> out@.len() == 0,
        decreases v.len() - i,
    {
        assert(v@.take(i + 1).drop_last() =~= v@.take(i as int));
        assert(v@.take(i + 1).last() == v@[i as int]);
        if i > 0 {
            push_str(&mut out, ", ");
        }
        push_str(&mut out, v[i].0.as_str());
        push_str(&mut out, " (");
        push_u64_digits(&mut out, v[i].1);
        push_str(&mut out, ")");
        i = i + 1;
        assert(i == 1 ==> v@.take(i as int)[0] == v@[0]);
        assert(out@ =~= extensions_text(v@.take(i as int)));
    }
    assert(v@.take(v.len() as int) =~= v@);
    string_from_chars(&out)
}

fn pair(a: &str, b: String) -> (r: Vec<String>)
    ensures
        string_views(r@) == seq![a@, b@],
{
    let mut r: Vec<String> = Vec::new();
    r.push(owned(a));
    r.push(b);
    assert(string_views(r@) =~= seq![a@, b@]);
    r
}

/// One user's effort as a table of labels and values, under a title.
pub fn render_user_effort_table(e: &UserEffortData) -> (r: String)
    ensures
        r@ == spec_user_effort_table(*e),
        has_row(r@, "Lines per day"@, ratio_text(e.lines_modified as nat, e.active_days as nat)),
        has_row(r@, "Lines per commit"@, ratio_text(e.lines_modified as nat, e.commits as nat)),
        has_row(r@, "Files per day"@, ratio_text(e.files_touched as nat, e.active_days as nat)),
        has_row(r@, "Files per commit"@, ratio_text(e.files_touched as nat, e.commits as nat)),
        has_row(r@, "C/D"@, ratio_text(e.commits as nat, e.active_days as nat)),
{
    proof {
        lemma_effort_table_rows(*e);
    }
    let mut headers: Vec<String> = Vec::new();
    headers.push(owned("Metric"));
    headers.push(owned("Value"));
    let mut right: Vec<bool> = Vec::new();
    right.push(false);
    right.push(false);
    let mut period = str_chars(e.first_commit.as_str());
    push_str(&mut period, " .. ");
    push_str(&mut period, e.last_commit.as_str());
    let mut data: Vec<Vec<String>> = Vec::new();
    data.push(pair("Name", e.name.clone()));
    data.push(pair("Identifier", e.identifier.clone()));
    data.push(pair("Period", string_from_chars(&period)));
    data.push(pair("Most active weekday", e.most_active_weekday.clone()));
    data.push(pair("C/D (most active weekday)", format_ratio_2dp(e.most_active_weekday_commits, e.most_active_weekday_active_days)));
    data.push(pair("Least active weekday", e.least_active_weekday.clone()));
    data.push(pair("C/D (least active weekday)", format_ratio_2dp(e.least_active_weekday_commits, e.least_active_weekday_active_days)));
    data.push(pair("C/D", format_ratio_2dp(e.commits, e.active_days)));
    data.push(pair("Files per commit", format_ratio_2dp(e.files_touched, e.commits)));
    data.push(pair("Files per day", format_ratio_2dp(e.files_touched, e.active_days)));
    data.push(pair("Lines per commit", format_ratio_2dp(e.lines_modified, e.commits)));
    data.push(pair("Lines per day", format_ratio_2dp(e.lines_modified, e.active_days)));
    data.push(pair("Top extensions", extensions_string(&e.top_extensions)));
    assert(string_views(headers@) =~= seq!["Metric"@, "Value"@]);
    assert(right@ =~= seq![false, false]);
    assert(rows_views(data@) =~= effort_cells(*e));
    let table = render_plain_table(&headers, &data, &right, None);
    let mut v = str_chars("User effort");
    push_str(&mut v, "\n\n");
    push_str(&mut v, table.as_str());
    string_from_chars(&v)
}

// ---------------------------------------------------------------------------
// The analysis header
// ---------------------------------------------------------------------------

/// `s` up to (not including) its first character that is one of `stops`.
pub open spec fn cut_at_any(s: Seq<char>, stops: Seq<char>) -> Seq<char>
    decreases s.len(),
{
    if s.len() == 0 {
        s
    } else if stops.contains(s[0]) {
        Seq::empty()
    } else {
        seq![s[0]] + cut_at_any(s.drop_first(), stops)
    }
}

/// An ISO 8601 timestamp shown as `date time`: the time without its fraction and zone; text
/// without a `T` unchanged.
pub open spec fn spec_period_datetime(ts: Seq<char>) -> Seq<char> {
    match find_char(ts, 'T') {
        None => ts,
        Some(t) => ts.take(t) + seq![' '] + cut_at_any(cut_at_any(ts.skip(t + 1), seq!['+', '-', 'Z']), seq!['.']),
    }
}

/// `cut_at_any` on `s[lo..]`.
fn cut_index(s: &Vec<char>, lo: usize, stops: &Vec<char>) -> (r: usize)
    requires
        lo <= s.len(),
    ensures
        lo <= r <= s.len(),
        s@.subrange(lo as int, r as int) == cut_at_any(s@.skip(lo as int), stops@),
    decreases s.len() - lo,
{
    if lo == s.len() {
        assert(s@.skip(lo as int) =~= Seq::<char>::empty());
        assert(s@.subrange(lo as int, lo as int) =~= Seq::<char>::empty());
        return lo;
    }
    let mut hit = false;
    let mut k: usize = 0;
    while k < stops.len()
        invariant
            k <= stops.len(),
            lo < s.len(),
            hit == exists|j: int| 0 <= j < k && stops@[j] == s@[lo as int],
        decreases stops.len() - k,
    {
        if stops[k] == s[lo] {
            hit = true;
        }
        k = k + 1;
    }
    assert(s@.skip(lo as int)[0] == s@[lo as int]);
    assert(hit == stops@.contains(s@[lo as int]));
    if hit {
        assert(s@.subrange(lo as int, lo as int) =~= Seq::<char>::empty());
        lo
    } else {
        let r = cut_index(s, lo + 1, stops);
        assert(s@.skip(lo as int).drop_first() =~= s@.skip(lo + 1));
        assert(s@.subrange(lo as int, r as int) =~= seq![s@[lo as int]] + s@.subrange(lo + 1, r as int));
        r
    }
}

/// A timestamp of the header's period: `2025-01-15T10:20:30+00:00` as `2025-01-15 10:20:30`.
pub fn format_period_datetime(ts: &str) -> (r: String)
    ensures
        r@ == spec_period_datetime(ts@),
{
    let s = str_chars(ts);
    assert(s@.subrange(0, s.len() as int) =~= s@);
    proof {
        lemma_find_char_props(s@, 'T');
    }
    match find_char_in(&s, 0, s.len(), 'T') {
        None => crate::text::string_of_str(ts),
        Some(t) => {
            let zone: Vec<char> = vec!['+', '-', 'Z'];
            let dot: Vec<char> = vec!['.'];
            let a = cut_index(&s, t + 1, &zone);
            let rest = crate::text::string_of_range(&s, t + 1, a);
            let rs = str_chars(rest.as_str());
            assert(rs@.subrange(0, rs.len() as int) =~= rs@);
            let b = cut_index(&rs, 0, &dot);
            assert(rs@.skip(0) =~= rs@);
            let mut v: Vec<char> = Vec::new();
            crate::text::push_range(&mut v, &s, 0, t);
            v.push(' ');
            crate::text::push_range(&mut v, &rs, 0, b);
            assert(zone@ =~= seq!['+', '-', 'Z']);
            assert(dot@ =~= seq!['.']);
            assert(s@.subrange(0, t as int) =~= s@.take(t as int));
            assert(v@ =~= spec_period_datetime(ts@));
            string_from_chars(&v)
        },
    }
}

/// `millis` as three digits.
pub open spec fn millis_text(millis: nat) -> Seq<char> {
    pad_left(nat_digits(millis), 3, '0')
}

/// An elapsed time: `Mm S.mmms` from a minute on, else `S.mmms`.
pub open spec fn spec_duration(secs: nat, millis: nat) -> Seq<char> {
    if secs >= 60 {
        nat_digits(secs / 60) + "m "@ + nat_digits(secs % 60) + seq!['.'] + millis_text(millis) + seq!['s']
    } else {
        nat_digits(secs) + seq!['.'] + millis_text(millis) + seq!['s']
    }
}

/// Formats an elapsed time given as whole seconds and milliseconds past them.
pub fn format_duration(secs: u64, millis: u32) -> (r: String)
    requires
        millis < 1000,
    ensures
        r@ == spec_duration(secs as nat, millis as nat),
{
    let mut v: Vec<char> = Vec::new();
    if secs >= 60 {
        push_u64_digits(&mut v, secs / 60);
        push_str(&mut v, "m ");
        push_u64_digits(&mut v, secs % 60);
    } else {
        push_u64_digits(&mut v, secs);
    }
    v.push('.');
    let md = crate::text::u64_chars(millis as u64);
    push_pad_left(&mut v, &md, 3, '0');
    v.push('s');
    assert(v@ =~= spec_duration(secs as nat, millis as nat));
    string_from_chars(&v)
}

/// The contributors of several repositories, in order.
pub open spec fn all_contributors(repos: Seq<RepositoryAnalysis>) -> Seq<ContributorStats>
    decreases repos.len(),
{
    if repos.len() == 0 {
        Seq::empty()
    } else {
        all_contributors(repos.drop_last()) + repos.last().contributions.contributors@
    }
}

/// The least non-empty first-commit timestamp (the first of equal ones).
pub open spec fn earliest_commit(cs: Seq<ContributorStats>) -> Option<Seq<char>>
    decreases cs.len(),
{
    if cs.len() == 0 {
        None
    } else {
        let p = earliest_commit(cs.drop_last());
        let f = cs.last().first_commit@;
        if f.len() == 0 {
            p
        } else {
            match p {
                Some(e) => if !seq_lt(f, e) { Some(e) } else { Some(f) },
                None => Some(f),
            }
        }
    }
}

/// The greatest non-empty last-commit timestamp.
pub open spec fn latest_commit(cs: Seq<ContributorStats>) -> Option<Seq<char>>
    decreases cs.len(),
{
    if cs.len() == 0 {
        None
    } else {
        let p = latest_commit(cs.drop_last());
        let l = cs.last().last_commit@;
        if l.len() == 0 {
            p
        } else {
            match p {
                Some(e) => if !seq_lt(e, l) { Some(e) } else { Some(l) },
                None => Some(l),
            }
        }
    }
}

pub open spec fn period_end_text(t: Option<Seq<char>>) -> Seq<char> {
    match t {
        Some(ts) => spec_period_datetime(ts),
        None => "?"@,
    }
}

/// The header of an analysis: its period (from the earliest first commit to the latest last
/// commit of any contributor), the number of repositories, and the time it took.
pub open spec fn spec_analysis_header(repos: Seq<RepositoryAnalysis>, secs: nat, millis: nat) -> Seq<char> {
    let cs = all_contributors(repos);
    "Period:    "@ + period_end_text(earliest_commit(cs)) + " .. "@ + period_end_text(latest_commit(cs)) + "\nProjects:  "@
        + nat_digits(repos.len()) + (if repos.len() == 1 { " repository\n"@ } else { " repositories\n"@ })
        + "Elapsed:   "@ + spec_duration(secs, millis) + "\n\n"@
}

/// A summary header: the period the analysis covers, how many repositories, how long it
/// took (`elapsed_secs` whole seconds and `elapsed_millis` milliseconds).
pub fn render_analysis_header(repos: &Vec<RepositoryAnalysis>, elapsed_secs: u64, elapsed_millis: u32) -> (r: String)
    requires
        elapsed_millis < 1000,
    ensures
        r@ == spec_analysis_header(repos@, elapsed_secs as nat, elapsed_millis as nat),
{
    let mut earliest: Option<String> = None;
    let mut latest: Option<String> = None;
    let mut i: usize = 0;
    while i < repos.len()
        invariant
            i <= repos.len(),
            opt_view(earliest) == earliest_commit(all_contributors(repos@.take(i as int))),
            opt_view(latest) == latest_commit(all_contributors(repos@.take(i as int))),
        decreases repos.len() - i,
    {
        assert(repos@.take(i + 1).drop_last() =~= repos@.take(i as int));
        let ghost pre = all_contributors(repos@.take(i as int));
        let cs = &repos[i].contributions.contributors;
        let mut j: usize = 0;
        while j < cs.len()
            invariant
                j <= cs.len(),
                opt_view(earliest) == earliest_commit(pre + cs@.take(j as int)),
                opt_view(latest) == latest_commit(pre + cs@.take(j as int)),
            decreases cs.len() - j,
        {
            assert((pre + cs@.take(j + 1)).drop_last() =~= pre + cs@.take(j as int));
            assert((pre + cs@.take(j + 1)).last() == cs@[j as int]);
            let c = &cs[j];
            if !c.first_commit.as_str().is_empty() {
                let keep = match &earliest {
                    Some(e) => !str_lt(c.first_commit.as_str(), e.as_str()),
                    None => false,
                };
                if !keep {
                    earliest = Some(c.first_commit.clone());
                }
            }
            if !c.last_commit.as_str().is_empty() {
                let keep = match &latest {
                    Some(l) => !str_lt(l.as_str(), c.last_commit.as_str()),
                    None => false,
                };
                if !keep {
                    latest = Some(c.last_commit.clone());
                }
            }
            j = j + 1;
        }
        assert(cs@.take(cs.len() as int) =~= cs@);
        assert(all_contributors(repos@.take(i + 1)) =~= pre + cs@);
        i = i + 1;
    }
    assert(repos@.take(repos.len() as int) =~= repos@);
    let start = match &earliest {
        Some(e) => format_period_datetime(e.as_str()),
        None => crate::text::string_of_str("?"),
    };
    let end = match &latest {
        Some(l) => format_period_datetime(l.as_str()),
        None => crate::text::string_of_str("?"),
    };
    let elapsed = format_duration(elapsed_secs, elapsed_millis);
    let mut v = str_chars("Period:    ");
    let sc = str_chars(start.as_str());
    push_all(&mut v, &sc);
    push_str(&mut v, " .. ");
    let ec = str_chars(end.as_str());
    push_all(&mut v, &ec);
    push_str(&mut v, "\nProjects:  ");
    push_u64_digits(&mut v, repos.len() as u64);
    if repos.len() == 1 {
        push_str(&mut v, " repository\n");
    } else {
        push_str(&mut v, " repositories\n");
    }
    push_str(&mut v, "Elapsed:   ");
    let dc = str_chars(elapsed.as_str());
    push_all(&mut v, &dc);
    push_str(&mut v, "\n\n");
    assert(v@ =~= spec_analysis_header(repos@, elapsed_secs as nat, elapsed_millis as nat));
    string_from_chars(&v)
}

pub open spec fn opt_view(o: Option<String>) -> Option<Seq<char>> {
    match o {
        Some(s) => Some(s@),
        None => None,
    }
}

// ---------------------------------------------------------------------------
// Repositories compared
// ---------------------------------------------------------------------------

/// The widest name of the rows, in bytes (0 for none).
pub open spec fn name_width(rows: Seq<RepoComparisonRow>) -> nat
    decreases rows.len(),
{
    if rows.len() == 0 {
        0
    } else {
        let p = name_width(rows.drop_last());
        let w = cell_width(rows.last().name@);
        if w > p {
            w
        } else {
            p
        }
    }
}

/// A line `  name  C/D` of the most or least active repositories.
pub open spec fn cpd_line(r: RepoComparisonRow, width: nat) -> Seq<char> {
    "  "@ + pad_right(r.name@, width, ' ') + "  "@ + ratio_text(r.total_commits as nat, r.active_days as nat) + "\n"@
}

/// The lines of the rows at `idx`.
pub open spec fn cpd_lines(rows: Seq<RepoComparisonRow>, idx: Seq<int>, width: nat) -> Seq<char>
    decreases idx.len(),
{
    if idx.len() == 0 {
        Seq::empty()
    } else {
        cpd_lines(rows, idx.drop_last(), width) + cpd_line(rows[idx.last()], width)
    }
}

/// The line of weekday `d`: its first three repositories with commits on that weekday, or
/// nothing when there are none.
pub open spec fn wd_line(rows: Seq<RepoComparisonRow>, ord: Seq<int>, d: int) -> Seq<char> {
    let es = wd_entries(rows, top3(ord), d);
    if es.len() == 0 {
        Seq::empty()
    } else {
        "  "@ + pad_right(weekday_short(d), 5, ' ') + " "@ + join_with(es, "  "@) + "\n"@
    }
}

/// The weekday lines for weekdays `0..n`.
pub open spec fn wd_lines(rows: Seq<RepoComparisonRow>, ords: Seq<Seq<int>>, n: int) -> Seq<char>
    decreases n,
{
    if n <= 0 {
        Seq::empty()
    } else {
        wd_lines(rows, ords, n - 1) + wd_line(rows, ords[n - 1], n - 1)
    }
}

/// The comparison text for rows ranked by `ord` overall and by `ords[d]` on weekday `d`.
pub open spec fn spec_comparison_table(rows: Seq<RepoComparisonRow>, ord: Seq<int>, ords: Seq<Seq<int>>) -> Seq<char> {
    let w = name_width(rows);
    COMPARE_REPOS_DESC@ + "\n\n"@ + "Most active repositories (commits per active day):\n"@ + cpd_lines(rows, top3(ord), w)
        + "\n"@ + "Least active repositories (commits per active day):\n"@ + cpd_lines(rows, top3(ord.reverse()), w)
        + "\n"@ + "Most active repositories by weekday:\n"@ + wd_lines(rows, ords, 7)
}

/// The rows ranked by commits per active day (stable, greatest first), overall and on each
/// weekday.
pub open spec fn comparison_ranked(rows: Seq<RepoComparisonRow>, ord: Seq<int>, ords: Seq<Seq<int>>) -> bool {
    &&& is_ranking(cpd_keys(rows), ord)
    &&& ords.len() == 7
    &&& forall|d: int| 0 <= d < 7 ==> is_ranking(wd_keys(rows, d), #[trigger] ords[d])
}

fn push_cpd_lines(out: &mut Vec<char>, rows: &Vec<RepoComparisonRow>, idx: &Vec<usize>, width: usize)
    requires
        forall|i: int| 0 <= i < idx.len() ==> #[trigger] idx@[i] < rows.len(),
    ensures
        final(out)@ == old(out)@ + cpd_lines(rows@, usize_ints(idx@), width as nat),
{
    let mut i: usize = 0;
    while i < idx.len()
        invariant
            i <= idx.len(),
            forall|j: int| 0 <= j < idx.len() ==> #[trigger] idx@[j] < rows.len(),
            out@ == old(out)@ + cpd_lines(rows@, usize_ints(idx@.take(i as int)), width as nat),
        decreases idx.len() - i,
    {
        assert(usize_ints(idx@.take(i + 1)).drop_last() =~= usize_ints(idx@.take(i as int)));
        assert(usize_ints(idx@.take(i + 1)).last() == idx@[i as int] as int);
        let r = &rows[idx[i]];
        push_str(out, "  ");
        let nc = str_chars(r.name.as_str());
        push_pad_right(out, &nc, width, ' ');
        push_str(out, "  ");
        let t = format_ratio_2dp(r.total_commits, r.active_days as u64);
        let tc = str_chars(t.as_str());
        push_all(out, &tc);
        push_str(out, "\n");
        i = i + 1;
        assert(out@ =~= old(out)@ + cpd_lines(rows@, usize_ints(idx@.take(i as int)), width as nat));
    }
    assert(idx@.take(idx.len() as int) =~= idx@);
}

/// The first three of a ranking, or the last three reversed.
pub(crate) fn first3(ord: &Vec<usize>, from_end: bool, bound: usize) -> (r: Vec<usize>)
    requires
        forall|j: int| 0 <= j < ord.len() ==> #[trigger] ord@[j] < bound,
    ensures
        forall|i: int| 0 <= i < r.len() ==> #[trigger] r@[i] < bound,
        !from_end ==> usize_ints(r@) == top3(usize_ints(ord@)),
        from_end ==> usize_ints(r@) == top3(usize_ints(ord@).reverse()),
{
    let n = ord.len();
    let k = if n < 3 { n } else { 3 };
    let mut r: Vec<usize> = Vec::new();
    let mut i: usize = 0;
    while i < k
        invariant
            i <= k <= n,
            n == ord.len(),
            k == if n < 3 { n } else { 3 },
            r.len() == i,
            forall|t: int| 0 <= t < i ==> #[trigger] r@[t] == if from_end { ord@[n - 1 - t] } else { ord@[t] },
        decreases k - i,
    {
        if from_end {
            r.push(ord[n - 1 - i]);
        } else {
            r.push(ord[i]);
        }
        i = i + 1;
    }
    assert forall|i: int| 0 <= i < r.len() implies #[trigger] r@[i] < bound by {
        if from_end {
            assert(r@[i] == ord@[n - 1 - i]);
        } else {
            assert(r@[i] == ord@[i]);
        }
    }
    if from_end {
        assert(usize_ints(r@) =~= top3(usize_ints(ord@).reverse()));
    } else {
        assert(usize_ints(r@) =~= top3(usize_ints(ord@)));
    }
    r
}

/// The widest name of the rows, in bytes.
pub(crate) fn name_width_exec(rows: &Vec<RepoComparisonRow>) -> (w: usize)
    ensures
        w as nat == name_width(rows@),
{
    let mut w: usize = 0;
    let mut i: usize = 0;
    while i < rows.len()
        invariant
            i <= rows.len(),
            w as nat == name_width(rows@.take(i as int)),
        decreases rows.len() - i,
    {
        assert(rows@.take(i + 1).drop_last() =~= rows@.take(i as int));
        let c = rows[i].name.as_str().len();
        if c > w {
            w = c;
        }
        i = i + 1;
    }
    assert(rows@.take(rows.len() as int) =~= rows@);
    w
}

/// The three most and least active repositories by commits per active day, and the three
/// `t` is the plain-text comparison of `rows`: nothing for fewer than two rows.
pub open spec fn is_comparison_table(t: Seq<char>, rows: Seq<RepoComparisonRow>) -> bool {
    &&& rows.len() < 2 ==> t.len() == 0
    &&& rows.len() >= 2 ==> exists|ord: Seq<int>, ords: Seq<Seq<int>>| comparison_ranked(rows, ord, ords) && t
        == spec_comparison_table(rows, ord, ords)
}

/// most active on each weekday; empty for fewer than two repositories.
pub fn render_repo_comparison_table(rows: &Vec<RepoComparisonRow>) -> (r: String)
    requires
        forall|i: int| 0 <= i < rows.len() ==> row_wf(#[trigger] rows[i]),
    ensures
        is_comparison_table(r@, rows@),
{
    if rows.len() < 2 {
        return String::new();
    }
    let keys = cpd_keys_exec(rows);
    let ord = rank_by_ratio(&keys);
    assert forall|j: int| 0 <= j < ord.len() implies #[trigger] ord@[j] < rows.len() by {
        assert(usize_ints(ord@)[j] == ord@[j] as int);
    }
    let width = name_width_exec(rows);
    let mut out = str_chars(COMPARE_REPOS_DESC);
    push_str(&mut out, "\n\n");
    push_str(&mut out, "Most active repositories (commits per active day):\n");
    let top = first3(&ord, false, rows.len());
    push_cpd_lines(&mut out, rows, &top, width);
    push_str(&mut out, "\n");
    push_str(&mut out, "Least active repositories (commits per active day):\n");
    let bottom = first3(&ord, true, rows.len());
    push_cpd_lines(&mut out, rows, &bottom, width);
    push_str(&mut out, "\n");
    push_str(&mut out, "Most active repositories by weekday:\n");
    let ghost head = out@;
    let ghost mut ords: Seq<Seq<int>> = Seq::empty();
    let mut d: usize = 0;
    while d < 7
        invariant
            d <= 7,
            rows.len() >= 2,
            forall|i: int| 0 <= i < rows.len() ==> row_wf(#[trigger] rows[i]),
            ords.len() == d,
            forall|e: int| 0 <= e < d ==> is_ranking(wd_keys(rows@, e), #[trigger] ords[e]),
            out@ == head + wd_lines(rows@, ords, d as int),
        decreases 7 - d,
    {
        let k = wd_keys_exec(rows, d);
        let o = rank_by_ratio(&k);
        assert forall|j: int| 0 <= j < o.len() implies #[trigger] o@[j] < rows.len() by {
            assert(usize_ints(o@)[j] == o@[j] as int);
        }
        let t3 = first3(&o, false, rows.len());
        let es = wd_entries_exec(rows, &t3, d);
        let ghost ords_old = ords;
        proof {
            ords = ords.push(usize_ints(o@));
            assert(ords.take(d as int) =~= ords_old);
        }
        assert(wd_lines(rows@, ords.take(d as int), d as int) == wd_lines(rows@, ords, d as int)) by {
            lemma_wd_lines_prefix(rows@, ords, d as int);
        }
        if es.len() > 0 {
            push_str(&mut out, "  ");
            let day = str_chars(weekday_short_exec(d));
            push_pad_right(&mut out, &day, 5, ' ');
            push_str(&mut out, " ");
            push_joined(&mut out, &es, "  ");
            push_str(&mut out, "\n");
        }
        assert(wd_lines(rows@, ords, d + 1) == wd_lines(rows@, ords, d as int) + wd_line(rows@, ords[d as int], d as int));
        assert(ords[d as int] == usize_ints(o@));
        d = d + 1;
        assert(out@ =~= head + wd_lines(rows@, ords, d as int));
    }
    assert(out@ =~= spec_comparison_table(rows@, usize_ints(ord@), ords));
    string_from_chars(&out)
}

proof fn lemma_wd_lines_prefix(rows: Seq<RepoComparisonRow>, ords: Seq<Seq<int>>, n: int)
    requires
        0 <= n <= ords.len(),
    ensures
        wd_lines(rows, ords.take(n), n) == wd_lines(rows, ords, n),
    decreases n,
{
    if n > 0 {
        lemma_wd_lines_prefix(rows, ords, n - 1);
        assert(ords.take(n).take(n - 1) =~= ords.take(n - 1));
        lemma_wd_lines_prefix(rows, ords.take(n), n - 1);
    }
}
} // verus!
