//! Markdown sections: bar charts, the activity heatmap and the commit timeline.
use vstd::prelude::*;
use vstd::utf8::encode_utf8;

use crate::analytics::{
    BarChartData, RepoComparisonRow, TimelineData, cpd_keys_exec, rank_by_ratio, row_wf, top3,
    usize_ints, wd_entries, wd_entries_exec, wd_keys_exec, weekday_short, weekday_short_exec,
};
use crate::report::table::{comparison_ranked, first3, format_ratio_2dp, ratio_text};
use crate::model::{legend_range, range_label, HeatmapData, spec_legend_labels};
use crate::arith::{tdiv, trem};
use crate::chart_util::{fit_in_usize, render_sparkline_bars_chars, spec_render_sparkline_bars, spark_block};
use crate::date_util::{day_of_week, dow_in_range, in_i32, parse_ymd, spec_day_of_week, spec_parse_ymd};
use crate::text::{
    int_digits, nat_digits, pad_left, push_all, push_i64_digits, push_pad_left, push_str,
    str_chars, string_from_chars, u64_chars,
};

pub use crate::report::document::{render_markdown, render_markdown_for_day, render_markdown_on};

verus! {

broadcast use vstd::string::group_string_axioms;

/// Width of the Markdown bar charts.
pub const BAR_CHART_MAX_WIDTH: usize = 80;

// ---------------------------------------------------------------------------
// ISO weeks
// ---------------------------------------------------------------------------

/// A Gregorian leap year.
pub open spec fn is_leap(y: int) -> bool {
    (trem(y, 4) == 0 && trem(y, 100) != 0) || trem(y, 400) == 0
}

/// Days of the year before the first of month `m`.
pub open spec fn days_before_month(m: int) -> int {
    if m == 1 {
        0
    } else if m == 2 {
        31
    } else if m == 3 {
        59
    } else if m == 4 {
        90
    } else if m == 5 {
        120
    } else if m == 6 {
        151
    } else if m == 7 {
        181
    } else if m == 8 {
        212
    } else if m == 9 {
        243
    } else if m == 10 {
        273
    } else if m == 11 {
        304
    } else {
        334
    }
}

/// 53 when the year starts on a Thursday, or on a Wednesday in a leap year; else 52.
pub open spec fn spec_iso_weeks_in_year(y: int) -> nat {
    let jan1 = spec_day_of_week(y, 1, 1);
    if jan1 == 3 || (jan1 == 2 && is_leap(y)) {
        53
    } else {
        52
    }
}

/// The raw week number of a date: `(day of year - ISO weekday + 10) / 7`.
pub open spec fn raw_iso_week(y: int, m: int, d: u32) -> int {
    let doy = days_before_month(m) + d + if is_leap(y) && m > 2 { 1int } else { 0 };
    let dow = spec_day_of_week(y, m, d) + 1;
    tdiv(doy - dow + 10, 7)
}

/// The inputs on which `iso_week_label` stays within `i32`.
pub open spec fn iso_week_defined(s: Seq<char>) -> bool {
    match spec_parse_ymd(s) {
        None => true,
        Some((y, m, d)) => {
            &&& dow_in_range(y as int, m as int, d)
            &&& if raw_iso_week(y as int, m as int, d) < 1 {
                in_i32(y - 1) && dow_in_range(y - 1, 1, 1)
            } else {
                &&& dow_in_range(y as int, 1, 1)
                &&& raw_iso_week(y as int, m as int, d) > spec_iso_weeks_in_year(y as int) ==> in_i32(y + 1)
            }
        },
    }
}

/// `year-Www` with the week zero-padded to two digits.
pub open spec fn week_text(year: int, week: nat) -> Seq<char> {
    int_digits(year) + "-W"@ + pad_left(nat_digits(week), 2, '0')
}

/// What `iso_week_label(date)` returns: the ISO 8601 week of the date, or the text unchanged
/// when it is not a date.
pub open spec fn spec_iso_week_label(s: Seq<char>) -> Seq<char> {
    match spec_parse_ymd(s) {
        None => s,
        Some((y, m, d)) => {
            let week = raw_iso_week(y as int, m as int, d);
            if week < 1 {
                week_text(y - 1, spec_iso_weeks_in_year(y - 1))
            } else if week > spec_iso_weeks_in_year(y as int) {
                week_text(y + 1, 1)
            } else {
                week_text(y as int, week as nat)
            }
        },
    }
}

fn is_leap_exec(y: i32) -> (b: bool)
    ensures
        b == is_leap(y as int),
{
    (y % 4 == 0 && y % 100 != 0) || y % 400 == 0
}

/// Number of ISO weeks in a year (52 or 53).
pub fn iso_weeks_in_year(y: i32) -> (r: u32)
    requires
        dow_in_range(y as int, 1, 1),
    ensures
        r as nat == spec_iso_weeks_in_year(y as int),
{
    let jan1_dow = day_of_week(y, 1, 1);
    if jan1_dow == 3 || (jan1_dow == 2 && is_leap_exec(y)) {
        53
    } else {
        52
    }
}

fn days_before_month_exec(m: u32) -> (r: u32)
    requires
        1 <= m <= 12,
    ensures
        r as int == days_before_month(m as int),
{
    match m {
        1 => 0,
        2 => 31,
        3 => 59,
        4 => 90,
        5 => 120,
        6 => 151,
        7 => 181,
        8 => 212,
        9 => 243,
        10 => 273,
        11 => 304,
        _ => 334,
    }
}

fn week_string(year: i32, week: u32) -> (r: String)
    ensures
        r@ == week_text(year as int, week as nat),
{
    let mut v: Vec<char> = Vec::new();
    push_i64_digits(&mut v, year as i64);
    push_str(&mut v, "-W");
    let wd = u64_chars(week as u64);
    push_pad_left(&mut v, &wd, 2, '0');
    string_from_chars(&v)
}

/// Convert a "YYYY-MM-DD" date to an ISO 8601 week label "YYYY-Www" (the text unchanged
/// when it is not such a date).
pub fn iso_week_label(date: &str) -> (r: String)
    requires
        iso_week_defined(date@),
    ensures
        r@ == spec_iso_week_label(date@),
{
    let (y, m, d) = match parse_ymd(date) {
        Some(t) => t,
        None => return crate::text::string_of_str(date),
    };
    let mut doy = days_before_month_exec(m) + d;
    if is_leap_exec(y) && m > 2 {
        doy = doy + 1;
    }
    let dow = day_of_week(y, m, d) as i32 + 1;
    let week = (doy as i32 - dow + 10) / 7;
    if week < 1 {
        let w = iso_weeks_in_year(y - 1);
        week_string(y - 1, w)
    } else if week > iso_weeks_in_year(y) as i32 {
        week_string(y + 1, 1)
    } else {
        week_string(y, week as u32)
    }
}

// ---------------------------------------------------------------------------
// Bar charts
// ---------------------------------------------------------------------------

/// The bar chart as block characters, 80 columns wide, `(no data)` when every value is 0.
pub fn format_bars(bars: &Vec<(String, u64)>) -> (r: Vec<char>)
    requires
        fit_in_usize(bars@),
    ensures
        r@ == spec_render_sparkline_bars(bars@, BAR_CHART_MAX_WIDTH as nat, "(no data)"@),
{
    render_sparkline_bars_chars(bars, BAR_CHART_MAX_WIDTH, "(no data)")
}

/// What `render_bar_chart_section(data)` returns.
pub open spec fn spec_bar_chart_section(data: BarChartData) -> Seq<char> {
    "## "@ + data.title@ + "\n\n```\n"@ + spec_render_sparkline_bars(data.bars@, BAR_CHART_MAX_WIDTH as nat, "(no data)"@)
        + "```\n\n"@
}

/// A `## title` section holding the bar chart in a code block.
pub fn render_bar_chart_section(data: &BarChartData) -> (r: String)
    requires
        fit_in_usize(data.bars@),
    ensures
        r@ == spec_bar_chart_section(*data),
{
    let mut out = str_chars("## ");
    let t = str_chars(data.title.as_str());
    push_all(&mut out, &t);
    push_str(&mut out, "\n\n```\n");
    let bars = format_bars(&data.bars);
    push_all(&mut out, &bars);
    push_str(&mut out, "```\n\n");
    string_from_chars(&out)
}

// ---------------------------------------------------------------------------
// Heatmap cells
// ---------------------------------------------------------------------------

/// The heatmap character of a count: `·` for none, then `░ ▒ ▓ █` for up to a quarter, a
/// half, three quarters, and more of the maximum.
pub open spec fn spec_heatmap_char(count: u32, max: u32) -> char {
    if count == 0 || max == 0 {
        '\u{b7}'
    } else if 4 * count <= max {
        '\u{2591}'
    } else if 2 * count <= max {
        '\u{2592}'
    } else if 4 * count <= 3 * max {
        '\u{2593}'
    } else {
        '\u{2588}'
    }
}

pub fn heatmap_char(count: u32, max: u32) -> (c: char)
    ensures
        c == spec_heatmap_char(count, max),
{
    if count == 0 || max == 0 {
        '\u{b7}'
    } else {
        let c = count as u64;
        let m = max as u64;
        if 4 * c <= m {
            '\u{2591}'
        } else if 2 * c <= m {
            '\u{2592}'
        } else if 4 * c <= 3 * m {
            '\u{2593}'
        } else {
            '\u{2588}'
        }
    }
}

// ---------------------------------------------------------------------------
// The heatmap section
// ---------------------------------------------------------------------------

/// Width of a label as `str::len` counts it (bytes of UTF-8).
pub open spec fn byte_len(s: Seq<char>) -> nat {
    (encode_utf8(s).len() as usize) as nat
}

/// The month label row (two characters per week) and the column after its last label.
pub open spec fn month_row(labels: Seq<(usize, String)>) -> (Seq<char>, nat)
    decreases labels.len(),
{
    if labels.len() == 0 {
        (Seq::empty(), 0)
    } else {
        let prev = month_row(labels.drop_last());
        let pos: nat = (2 * labels.last().0) as nat;
        let pad = if pos > prev.1 { crate::text::repeat_char(' ', (pos - prev.1) as nat) } else { Seq::empty() };
        (prev.0 + pad + labels.last().1@, pos + byte_len(labels.last().1@))
    }
}


/// The heatmap character of legend entry `i` (1 to 4).
pub open spec fn level_char(i: int) -> char {
    if i == 1 {
        '\u{2591}'
    } else if i == 2 {
        '\u{2592}'
    } else if i == 3 {
        '\u{2593}'
    } else {
        '\u{2588}'
    }
}

/// For a maximum of at least 4 the legend tells the truth about the map: entry `i` is the
/// range of exactly those counts in `1..=max` drawn with entry `i`'s character, and the four
/// ranges run on from 1 to `max` without gaps or overlaps.
pub proof fn lemma_legend_matches_heatmap(max: u32)
    requires
        max >= 4,
    ensures
        legend_range(max as nat, 1).0 == 1,
        legend_range(max as nat, 1).1 + 1 == legend_range(max as nat, 2).0,
        legend_range(max as nat, 2).1 + 1 == legend_range(max as nat, 3).0,
        legend_range(max as nat, 3).1 + 1 == legend_range(max as nat, 4).0,
        legend_range(max as nat, 4).1 == max,
        forall|i: int| 1 <= i <= 4 ==> #[trigger] legend_range(max as nat, i).0 <= legend_range(max as nat, i).1,
        forall|i: int, c: u32| #![trigger legend_range(max as nat, i), spec_heatmap_char(c, max)]
            1 <= i <= 4 && 1 <= c <= max ==> (
            (legend_range(max as nat, i).0 <= c <= legend_range(max as nat, i).1)
                <==> spec_heatmap_char(c, max) == level_char(i)),
        forall|i: int| 1 <= i <= 4 ==> #[trigger] spec_legend_labels(max as nat)[i] == range_label(
            legend_range(max as nat, i).0,
            legend_range(max as nat, i).1,
        ),
{
    let m = max as nat;
    assert(m / 4 >= 1 && m / 2 >= m / 4 + 1 && (3 * m) / 4 >= m / 2 + 1 && (3 * m) / 4 < m) by (nonlinear_arith)
        requires m >= 4;
    assert forall|c: u32| #![trigger spec_heatmap_char(c, max)] 1 <= c <= max implies
        (c <= m / 4 <==> 4 * c <= m) && (c <= m / 2 <==> 2 * c <= m) && (c <= (3 * m) / 4 <==> 4 * c <= 3 * m) by {
        assert((c <= m / 4 <==> 4 * c <= m) && (c <= m / 2 <==> 2 * c <= m) && (c <= (3 * m) / 4 <==> 4 * c <= 3 * m))
            by (nonlinear_arith) requires c >= 1, m >= 4;
    }
    crate::model::lemma_legend_labels_within_max(m);
}

/// The cells of weeks `0..k` of one weekday row, each followed by a space.
pub open spec fn heat_cells(row: Seq<u32>, k: nat, max: u32) -> Seq<char>
    decreases k,
{
    if k == 0 {
        Seq::empty()
    } else {
        heat_cells(row, (k - 1) as nat, max) + seq![spec_heatmap_char(row[k - 1], max), ' ']
    }
}

/// The label of weekday row `w`: every other row is named.
pub open spec fn heat_row_label(w: int) -> Seq<char> {
    if w == 0 {
        "Mon"@
    } else if w == 2 {
        "Wed"@
    } else if w == 4 {
        "Fri"@
    } else if w == 6 {
        "Sun"@
    } else {
        "   "@
    }
}

/// Weekday rows `0..k` of the heatmap.
pub open spec fn heat_rows(grid: Seq<Vec<u32>>, k: nat, week_count: nat, max: u32) -> Seq<char>
    decreases k,
{
    if k == 0 {
        Seq::empty()
    } else {
        heat_rows(grid, (k - 1) as nat, week_count, max) + heat_row_label(k - 1) + "  "@ + heat_cells(
            grid[k - 1]@,
            week_count,
            max,
        ) + seq!['\n']
    }
}

/// The legend entries `0..k`: each intensity character with its range of counts.
pub open spec fn legend_entries(labels: Seq<Seq<char>>, k: nat) -> Seq<char>
    decreases k,
{
    if k == 0 {
        Seq::empty()
    } else {
        legend_entries(labels, (k - 1) as nat) + (if k > 1 { "  "@ } else { Seq::empty() }) + seq![
            legend_char(k - 1),
            ' ',
        ] + labels[k - 1]
    }
}

/// The intensity characters, from none to maximum.
pub open spec fn legend_char(i: int) -> char {
    if i == 0 {
        '\u{b7}'
    } else if i == 1 {
        '\u{2591}'
    } else if i == 2 {
        '\u{2592}'
    } else if i == 3 {
        '\u{2593}'
    } else {
        '\u{2588}'
    }
}

/// The heatmap's shape: seven weekday rows of at least `week_count` weeks, and month label
/// positions that stay within `usize`.
pub open spec fn heatmap_renderable(data: HeatmapData) -> bool {
    &&& data.grid.len() == 7
    &&& forall|w: int| 0 <= w < 7 ==> data.week_count <= (#[trigger] data.grid[w]).len()
    &&& forall|i: int| 0 <= i < data.month_labels.len() ==> 2 * (#[trigger] data.month_labels[i]).0 + byte_len(
        data.month_labels[i].1@,
    ) <= usize::MAX
}

/// What `render_heatmap_section(data)` returns.
pub open spec fn spec_heatmap_section(data: HeatmapData) -> Seq<char> {
    "## Activity Heatmap\n\n"@ + "Period: "@ + data.start_date@ + " .. "@ + data.end_date@ + "\n\n"@
        + "```\n"@ + "     "@ + month_row(data.month_labels@).0 + seq!['\n'] + heat_rows(
        data.grid@,
        7,
        data.week_count as nat,
        data.max_count,
    ) + seq!['\n'] + "     "@ + legend_entries(spec_legend_labels(data.max_count as nat), 5) + seq!['\n']
        + "```\n\n"@
}

fn legend_char_exec(i: usize) -> (c: char)
    ensures
        c == legend_char(i as int),
{
    if i == 0 {
        '\u{b7}'
    } else if i == 1 {
        '\u{2591}'
    } else if i == 2 {
        '\u{2592}'
    } else if i == 3 {
        '\u{2593}'
    } else {
        '\u{2588}'
    }
}

fn heat_row_label_exec(w: usize) -> (s: &'static str)
    ensures
        s@ == heat_row_label(w as int),
{
    if w == 0 {
        "Mon"
    } else if w == 2 {
        "Wed"
    } else if w == 4 {
        "Fri"
    } else if w == 6 {
        "Sun"
    } else {
        "   "
    }
}

/// A Markdown section with the heatmap in a code block: month labels, one row per
/// weekday, and a legend of count ranges.
pub fn render_heatmap_section(data: &HeatmapData) -> (r: String)
    requires
        heatmap_renderable(*data),
    ensures
        r@ == spec_heatmap_section(*data),
{
    let mut out = str_chars("## Activity Heatmap\n\n");
    push_str(&mut out, "Period: ");
    push_str(&mut out, data.start_date.as_str());
    push_str(&mut out, " .. ");
    push_str(&mut out, data.end_date.as_str());
    push_str(&mut out, "\n\n");
    push_str(&mut out, "```\n");
    push_str(&mut out, "     ");
    let ghost head = out@;
    let mut last_col: usize = 0;
    let mut i: usize = 0;
    while i < data.month_labels.len()
        invariant
            i <= data.month_labels.len(),
            heatmap_renderable(*data),
            out@ == head + month_row(data.month_labels@.take(i as int)).0,
            last_col as nat == month_row(data.month_labels@.take(i as int)).1,
        decreases data.month_labels.len() - i,
    {
        assert(data.month_labels@.take(i + 1).drop_last() =~= data.month_labels@.take(i as int));
        assert(data.month_labels@.take(i + 1).last() == data.month_labels@[i as int]);
        let col = data.month_labels[i].0;
        let char_pos = col * 2;
        if char_pos > last_col {
            crate::text::push_repeat(&mut out, ' ', char_pos - last_col);
        }
        push_str(&mut out, data.month_labels[i].1.as_str());
        last_col = char_pos + data.month_labels[i].1.as_str().len();
        i = i + 1;
        assert(out@ =~= head + month_row(data.month_labels@.take(i as int)).0);
    }
    assert(data.month_labels@.take(data.month_labels.len() as int) =~= data.month_labels@);
    out.push('\n');
    let ghost before_rows = out@;
    let mut w: usize = 0;
    while w < 7
        invariant
            w <= 7,
            heatmap_renderable(*data),
            out@ == before_rows + heat_rows(data.grid@, w as nat, data.week_count as nat, data.max_count),
        decreases 7 - w,
    {
        let ghost row_start = out@;
        push_str(&mut out, heat_row_label_exec(w));
        push_str(&mut out, "  ");
        let ghost cells_start = out@;
        let mut c: usize = 0;
        while c < data.week_count
            invariant
                c <= data.week_count,
                w < 7,
                heatmap_renderable(*data),
                out@ == cells_start + heat_cells(data.grid[w as int]@, c as nat, data.max_count),
            decreases data.week_count - c,
        {
            assert(data.week_count <= data.grid[w as int].len());
            out.push(heatmap_char(data.grid[w][c], data.max_count));
            out.push(' ');
            c = c + 1;
            assert(out@ =~= cells_start + heat_cells(data.grid[w as int]@, c as nat, data.max_count));
        }
        out.push('\n');
        w = w + 1;
        assert(out@ =~= before_rows + heat_rows(data.grid@, w as nat, data.week_count as nat, data.max_count));
    }
    let labels = data.legend_labels();
    out.push('\n');
    push_str(&mut out, "     ");
    let ghost legend_start = out@;
    let ghost lv = spec_legend_labels(data.max_count as nat);
    let mut k: usize = 0;
    while k < 5
        invariant
            k <= 5,
            forall|j: int| 0 <= j < 5 ==> #[trigger] labels[j]@ == lv[j],
            out@ == legend_start + legend_entries(lv, k as nat),
        decreases 5 - k,
    {
        if k > 0 {
            push_str(&mut out, "  ");
        }
        out.push(legend_char_exec(k));
        out.push(' ');
        push_str(&mut out, labels[k].as_str());
        k = k + 1;
        assert(out@ =~= legend_start + legend_entries(lv, k as nat));
    }
    out.push('\n');
    push_str(&mut out, "```\n\n");
    assert(out@ =~= spec_heatmap_section(*data));
    string_from_chars(&out)
}

// ---------------------------------------------------------------------------
// The timeline section
// ---------------------------------------------------------------------------

/// Daily points grouped by ISO week: consecutive points of one week are added up.
pub open spec fn weeks_of(points: Seq<(String, u32)>) -> Seq<(Seq<char>, nat)>
    decreases points.len(),
{
    if points.len() == 0 {
        Seq::empty()
    } else {
        let prev = weeks_of(points.drop_last());
        let label = spec_iso_week_label(points.last().0@);
        if prev.len() > 0 && prev.last().0 == label {
            prev.update(prev.len() - 1, (label, prev.last().1 + points.last().1 as nat))
        } else {
            prev.push((label, points.last().1 as nat))
        }
    }
}

/// Largest weekly total; 0 when there are none.
pub open spec fn max_week(ws: Seq<(Seq<char>, nat)>) -> nat
    decreases ws.len(),
{
    if ws.len() == 0 {
        0
    } else {
        let m = max_week(ws.drop_last());
        if ws.last().1 > m {
            ws.last().1
        } else {
            m
        }
    }
}

/// Eighths of the chart height filled by `v`: `v / max` of 24, rounded half up.
pub open spec fn filled_levels(v: nat, max: nat) -> nat {
    if max == 0 {
        0
    } else {
        (48 * v + max) / (2 * max)
    }
}

/// The character of a week in sparkline row `row` (0 = bottom) of the 3-row chart.
pub open spec fn timeline_cell(v: nat, max: nat, row: nat) -> char {
    let f = filled_levels(v, max);
    let rf: nat = if f >= 8 * row { (f - 8 * row) as nat } else { 0 };
    let rf2: nat = if rf > 8 { 8 } else { rf };
    if rf2 == 0 {
        ' '
    } else {
        spark_block((rf2 - 1) as nat)
    }
}

/// Sparkline row `row` over the weeks `0..k`.
pub open spec fn timeline_row(ws: Seq<(Seq<char>, nat)>, k: nat, max: nat, row: nat) -> Seq<char>
    decreases k,
{
    if k == 0 {
        Seq::empty()
    } else {
        timeline_row(ws, (k - 1) as nat, max, row).push(timeline_cell(ws[k - 1].1, max, row))
    }
}

/// The weeks whose labels are shown: first, middle and last.
pub open spec fn label_positions(n: nat) -> Seq<nat> {
    if n > 2 {
        seq![0, n / 2, (n - 1) as nat]
    } else if n == 2 {
        seq![0, 1]
    } else {
        seq![0]
    }
}

/// The label line for the positions `ps` and the column after it.
pub open spec fn label_line(ws: Seq<(Seq<char>, nat)>, ps: Seq<nat>) -> (Seq<char>, nat)
    decreases ps.len(),
{
    if ps.len() == 0 {
        (Seq::empty(), 0)
    } else {
        let prev = label_line(ws, ps.drop_last());
        let pos = ps.last();
        if pos >= prev.1 {
            (prev.0 + crate::text::repeat_char(' ', (pos - prev.1) as nat) + ws[pos as int].0, pos + byte_len(
                ws[pos as int].0,
            ))
        } else {
            prev
        }
    }
}

/// What `render_timeline_section(data)` returns.
pub open spec fn spec_timeline_section(data: TimelineData) -> Seq<char> {
    if data.points.len() == 0 {
        Seq::empty()
    } else {
        let ws = weeks_of(data.points@);
        let max = max_week(ws);
        "## "@ + data.title@ + "\n\n"@ + "```\n"@ + timeline_row(ws, ws.len(), max, 2) + seq!['\n']
            + timeline_row(ws, ws.len(), max, 1) + seq!['\n'] + timeline_row(ws, ws.len(), max, 0) + seq![
            '\n',
        ] + label_line(ws, label_positions(ws.len())).0 + seq!['\n'] + seq!['\u{2581}'] + " = 0  "@ + seq![
            '\u{2588}',
        ] + " = "@ + nat_digits(max) + " commits/week\n"@ + "```\n\n"@
    }
}

/// Sum of all points' counts.
pub open spec fn points_total(points: Seq<(String, u32)>) -> nat
    decreases points.len(),
{
    if points.len() == 0 {
        0
    } else {
        points_total(points.drop_last()) + points.last().1 as nat
    }
}

/// The inputs the timeline can be drawn for: every date has an ISO week within `i32`, and the
/// counts add up within `u64`.
pub open spec fn timeline_renderable(points: Seq<(String, u32)>) -> bool {
    &&& forall|i: int| 0 <= i < points.len() ==> iso_week_defined((#[trigger] points[i]).0@)
    &&& points_total(points) <= u64::MAX
}

proof fn lemma_weeks_props(points: Seq<(String, u32)>)
    ensures
        weeks_of(points).len() <= points.len(),
        forall|i: int| 0 <= i < weeks_of(points).len() ==> (#[trigger] weeks_of(points)[i]).1 <= points_total(points),
        points.len() > 0 ==> weeks_of(points).len() > 0,
    decreases points.len(),
{
    if points.len() > 0 {
        lemma_weeks_props(points.drop_last());
    }
}

proof fn lemma_max_week(ws: Seq<(Seq<char>, nat)>)
    ensures
        forall|i: int| 0 <= i < ws.len() ==> (#[trigger] ws[i]).1 <= max_week(ws),
        ws.len() > 0 ==> exists|i: int| 0 <= i < ws.len() && ws[i].1 == max_week(ws),
    decreases ws.len(),
{
    if ws.len() > 0 {
        lemma_max_week(ws.drop_last());
        assert forall|i: int| 0 <= i < ws.len() implies (#[trigger] ws[i]).1 <= max_week(ws) by {
            if i < ws.len() - 1 {
                assert(ws.drop_last()[i] == ws[i]);
            }
        }
        if ws.len() > 1 && ws.last().1 <= max_week(ws.drop_last()) {
            let j = choose|j: int| 0 <= j < ws.drop_last().len() && ws.drop_last()[j].1 == max_week(ws.drop_last());
            assert(ws[j] == ws.drop_last()[j]);
        } else {
            assert(ws[ws.len() - 1].1 == max_week(ws));
        }
    }
}

fn timeline_cell_exec(v: u64, max: u64, row: u64) -> (c: char)
    requires
        v <= max,
        row <= 2,
    ensures
        c == timeline_cell(v as nat, max as nat, row as nat),
{
    let f: u128 = if max == 0 {
        0
    } else {
        (48 * v as u128 + max as u128) / (2 * max as u128)
    };
    let rf: u128 = if f >= 8 * row as u128 { f - 8 * row as u128 } else { 0 };
    let rf2: u128 = if rf > 8 { 8 } else { rf };
    if rf2 == 0 {
        ' '
    } else {
        crate::chart_util::spark_block_exec((rf2 - 1) as usize)
    }
}

/// A Markdown section with the commit timeline as a three-row sparkline of weekly totals,
/// with the first, middle and last week labelled; empty when there are no points.
#[verifier::spinoff_prover]
#[verifier::rlimit(40)]
pub fn render_timeline_section(data: &TimelineData) -> (r: String)
    requires
        timeline_renderable(data.points@),
    ensures
        r@ == spec_timeline_section(*data),
{
    if data.points.len() == 0 {
        return String::new();
    }
    let ghost ps = data.points@;
    let mut weeks: Vec<(String, u64)> = Vec::new();
    let mut i: usize = 0;
    while i < data.points.len()
        invariant
            i <= data.points.len(),
            ps == data.points@,
            timeline_renderable(ps),
            weeks.len() == weeks_of(ps.take(i as int)).len(),
            forall|j: int| 0 <= j < weeks.len() ==> (#[trigger] weeks@[j]).0@ == weeks_of(ps.take(i as int))[j].0
                && weeks@[j].1 as nat == weeks_of(ps.take(i as int))[j].1,
        decreases data.points.len() - i,
    {
        assert(ps.take(i + 1).drop_last() =~= ps.take(i as int));
        assert(ps.take(i + 1).last() == ps[i as int]);
        proof {
            lemma_weeks_props(ps.take(i + 1));
            crate::report::markdown::lemma_total_prefix(ps, i + 1);
        }
        let label = iso_week_label(data.points[i].0.as_str());
        let count = data.points[i].1 as u64;
        let n = weeks.len();
        if n > 0 && weeks[n - 1].0 == label {
            let ghost next = weeks_of(ps.take(i + 1));
            assert(next[n - 1].1 <= points_total(ps.take(i + 1)));
            let total = weeks[n - 1].1 + count;
            let l = weeks[n - 1].0.clone();
            weeks.set(n - 1, (l, total));
        } else {
            weeks.push((label, count));
        }
        i = i + 1;
    }
    assert(ps.take(data.points.len() as int) =~= ps);
    let ghost ws = weeks_of(ps);
    proof {
        lemma_weeks_props(ps);
        lemma_max_week(ws);
    }
    let mut max_val: u64 = 0;
    let mut k: usize = 0;
    while k < weeks.len()
        invariant
            k <= weeks.len(),
            ws == weeks_of(ps),
            weeks.len() == ws.len(),
            forall|j: int| 0 <= j < weeks.len() ==> (#[trigger] weeks@[j]).0@ == ws[j].0 && weeks@[j].1 as nat == ws[j].1,
            max_val as nat == max_week(ws.take(k as int)),
        decreases weeks.len() - k,
    {
        assert(ws.take(k + 1).drop_last() =~= ws.take(k as int));
        if weeks[k].1 > max_val {
            max_val = weeks[k].1;
        }
        k = k + 1;
    }
    assert(ws.take(weeks.len() as int) =~= ws);
    let mut out = str_chars("## ");
    push_str(&mut out, data.title.as_str());
    push_str(&mut out, "\n\n");
    push_str(&mut out, "```\n");
    push_timeline_row(&mut out, &weeks, max_val, 2, Ghost(ws));
    push_timeline_row(&mut out, &weeks, max_val, 1, Ghost(ws));
    push_timeline_row(&mut out, &weeks, max_val, 0, Ghost(ws));
    let ghost labels_start = out@;
    let n = weeks.len();
    let mut positions: Vec<usize> = Vec::new();
    if n > 2 {
        positions.push(0);
        positions.push(n / 2);
        positions.push(n - 1);
    } else if n == 2 {
        positions.push(0);
        positions.push(1);
    } else {
        positions.push(0);
    }
    let ghost pv = label_positions(ws.len());
    assert(positions@.map_values(|p: usize| p as nat) =~= pv);
    let mut cursor: u128 = 0;
    let mut p: usize = 0;
    while p < positions.len()
        invariant
            p <= positions.len(),
            positions@.map_values(|q: usize| q as nat) == pv,
            forall|t: int| 0 <= t < positions.len() ==> (#[trigger] positions@[t]) < weeks.len(),
            ws == weeks_of(ps),
            weeks.len() == ws.len(),
            forall|j: int| 0 <= j < weeks.len() ==> (#[trigger] weeks@[j]).0@ == ws[j].0 && weeks@[j].1 as nat == ws[j].1,
            out@ == labels_start + label_line(ws, pv.take(p as int)).0,
            cursor as nat == label_line(ws, pv.take(p as int)).1,
            cursor <= 0x1_0000_0000_0000_0000 + 0x1_0000_0000_0000_0000,
        decreases positions.len() - p,
    {
        assert(pv.take(p + 1).drop_last() =~= pv.take(p as int));
        assert(pv.take(p + 1).last() == positions@[p as int] as nat);
        let pos = positions[p];
        if pos as u128 >= cursor {
            crate::text::push_repeat(&mut out, ' ', (pos as u128 - cursor) as usize);
            push_str(&mut out, weeks[pos].0.as_str());
            cursor = pos as u128 + weeks[pos].0.as_str().len() as u128;
        }
        p = p + 1;
    }
    assert(pv.take(positions.len() as int) =~= pv);
    out.push('\n');
    out.push('\u{2581}');
    push_str(&mut out, " = 0  ");
    out.push('\u{2588}');
    push_str(&mut out, " = ");
    crate::text::push_u64_digits(&mut out, max_val);
    push_str(&mut out, " commits/week\n");
    push_str(&mut out, "```\n\n");
    assert(out@ =~= spec_timeline_section(*data));
    string_from_chars(&out)
}

/// Appends sparkline row `row` of the timeline and a newline.
fn push_timeline_row(out: &mut Vec<char>, weeks: &Vec<(String, u64)>, max_val: u64, row: u64, Ghost(ws): Ghost<Seq<(Seq<char>, nat)>>)
    requires
        row <= 2,
        weeks.len() == ws.len(),
        forall|j: int| 0 <= j < weeks.len() ==> (#[trigger] weeks@[j]).1 as nat == ws[j].1,
        max_val as nat == max_week(ws),
        forall|j: int| 0 <= j < ws.len() ==> (#[trigger] ws[j]).1 <= max_week(ws),
    ensures
        final(out)@ == old(out)@ + timeline_row(ws, ws.len(), max_val as nat, row as nat) + seq!['\n'],
{
    let mut c: usize = 0;
    while c < weeks.len()
        invariant
            c <= weeks.len(),
            row <= 2,
            weeks.len() == ws.len(),
            forall|j: int| 0 <= j < weeks.len() ==> (#[trigger] weeks@[j]).1 as nat == ws[j].1,
            max_val as nat == max_week(ws),
            forall|j: int| 0 <= j < ws.len() ==> (#[trigger] ws[j]).1 <= max_week(ws),
            out@ == old(out)@ + timeline_row(ws, c as nat, max_val as nat, row as nat),
        decreases weeks.len() - c,
    {
        assert(ws[c as int].1 <= max_week(ws));
        assert(weeks@[c as int].1 as nat == ws[c as int].1);
        out.push(timeline_cell_exec(weeks[c].1, max_val, row));
        c = c + 1;
    }
    out.push('\n');
}

proof fn lemma_total_prefix(points: Seq<(String, u32)>, k: int)
    requires
        0 <= k <= points.len(),
    ensures
        points_total(points.take(k)) <= points_total(points),
    decreases points.len() - k,
{
    if k < points.len() {
        lemma_total_prefix(points, k + 1);
        assert(points.take(k + 1).drop_last() =~= points.take(k));
    } else {
        assert(points.take(k) =~= points);
    }
}


// ---------------------------------------------------------------------------
// Repositories compared
// ---------------------------------------------------------------------------

/// A table row `| name | commits | active days | C/D |`.
pub open spec fn md_cpd_line(r: RepoComparisonRow) -> Seq<char> {
    "| "@ + r.name@ + " | "@ + nat_digits(r.total_commits as nat) + " | "@ + nat_digits(r.active_days as nat) + " | "@
        + ratio_text(r.total_commits as nat, r.active_days as nat) + " |\n"@
}

pub open spec fn md_cpd_lines(rows: Seq<RepoComparisonRow>, idx: Seq<int>) -> Seq<char>
    decreases idx.len(),
{
    if idx.len() == 0 {
        Seq::empty()
    } else {
        md_cpd_lines(rows, idx.drop_last()) + md_cpd_line(rows[idx.last()])
    }
}

/// Entry `i` of a list, or nothing.
pub open spec fn entry_or_empty(es: Seq<Seq<char>>, i: int) -> Seq<char> {
    if i < es.len() {
        es[i]
    } else {
        Seq::empty()
    }
}

/// The weekday row `| day | #1 | #2 | #3 |`, or nothing when no repository has commits on
/// that weekday.
pub open spec fn md_wd_line(rows: Seq<RepoComparisonRow>, ord: Seq<int>, d: int) -> Seq<char> {
    md_wd_row(wd_entries(rows, top3(ord), d), d)
}

/// The weekday row for the entries `es`, or nothing when there are none.
pub open spec fn md_wd_row(es: Seq<Seq<char>>, d: int) -> Seq<char> {
    if es.len() == 0 {
        Seq::empty()
    } else {
        "| "@ + weekday_short(d) + " | "@ + entry_or_empty(es, 0) + " | "@ + entry_or_empty(es, 1) + " | "@
            + entry_or_empty(es, 2) + " |\n"@
    }
}

fn push_md_wd_row(out: &mut Vec<char>, es: &Vec<Vec<char>>, d: usize)
    requires
        d < 7,
    ensures
        final(out)@ == old(out)@ + md_wd_row(es@.map_values(|v: Vec<char>| v@), d as int),
{
    let ghost ev = es@.map_values(|v: Vec<char>| v@);
    if es.len() > 0 {
        push_str(out, "| ");
        push_str(out, weekday_short_exec(d));
        push_str(out, " | ");
        push_all(out, &es[0]);
        push_str(out, " | ");
        if es.len() > 1 {
            push_all(out, &es[1]);
        }
        push_str(out, " | ");
        if es.len() > 2 {
            push_all(out, &es[2]);
        }
        push_str(out, " |\n");
        assert(ev[0] == es@[0]@);
        assert(es.len() > 1 ==> ev[1] == es@[1]@);
        assert(es.len() > 2 ==> ev[2] == es@[2]@);
        assert(out@ =~= old(out)@ + md_wd_row(ev, d as int));
    } else {
        assert(out@ =~= old(out)@ + md_wd_row(ev, d as int));
    }
}

pub open spec fn md_wd_lines(rows: Seq<RepoComparisonRow>, ords: Seq<Seq<int>>, n: int) -> Seq<char>
    decreases n,
{
    if n <= 0 {
        Seq::empty()
    } else {
        md_wd_lines(rows, ords, n - 1) + md_wd_line(rows, ords[n - 1], n - 1)
    }
}

pub open spec fn md_cpd_header() -> Seq<char> {
    "| Repository | Commits | Active days | C/D |\n"@ + "|---|---|---|---|\n"@
}

/// The comparison tables for rows ranked by `ord` overall and by `ords[d]` on weekday `d`.
pub open spec fn spec_comparison_markdown(rows: Seq<RepoComparisonRow>, ord: Seq<int>, ords: Seq<Seq<int>>) -> Seq<char> {
    "### Most active repositories (commits per active day)\n\n"@ + md_cpd_header() + md_cpd_lines(rows, top3(ord))
        + "\n"@ + "### Least active repositories (commits per active day)\n\n"@ + md_cpd_header() + md_cpd_lines(
        rows,
        top3(ord.reverse()),
    ) + "\n"@ + "### Most active repositories by weekday (C/D)\n\n"@ + "| Weekday | #1 | #2 | #3 |\n"@
        + "|---|---|---|---|\n"@ + md_wd_lines(rows, ords, 7) + "\n"@
}

#[verifier::spinoff_prover]
#[verifier::rlimit(40)]
fn push_md_cpd_lines(out: &mut Vec<char>, rows: &Vec<RepoComparisonRow>, idx: &Vec<usize>)
    requires
        forall|i: int| 0 <= i < idx.len() ==> #[trigger] idx@[i] < rows.len(),
    ensures
        final(out)@ == old(out)@ + md_cpd_lines(rows@, usize_ints(idx@)),
{
    let mut i: usize = 0;
    while i < idx.len()
        invariant
            i <= idx.len(),
            forall|j: int| 0 <= j < idx.len() ==> #[trigger] idx@[j] < rows.len(),
            out@ == old(out)@ + md_cpd_lines(rows@, usize_ints(idx@.take(i as int))),
        decreases idx.len() - i,
    {
        assert(usize_ints(idx@.take(i + 1)).drop_last() =~= usize_ints(idx@.take(i as int)));
        assert(usize_ints(idx@.take(i + 1)).last() == idx@[i as int] as int);
        let r = &rows[idx[i]];
        push_str(out, "| ");
        push_str(out, r.name.as_str());
        push_str(out, " | ");
        crate::text::push_u64_digits(out, r.total_commits);
        push_str(out, " | ");
        crate::text::push_u64_digits(out, r.active_days as u64);
        push_str(out, " | ");
        let t = format_ratio_2dp(r.total_commits, r.active_days as u64);
        push_str(out, t.as_str());
        push_str(out, " |\n");
        i = i + 1;
        assert(out@ =~= old(out)@ + md_cpd_lines(rows@, usize_ints(idx@.take(i as int))));
    }
    assert(idx@.take(idx.len() as int) =~= idx@);
}

/// Markdown tables of the three most and least active repositories by commits per active
/// day, and of the three most active on each weekday.
pub fn render_repo_comparison_markdown(rows: &Vec<RepoComparisonRow>) -> (r: String)
    requires
        forall|i: int| 0 <= i < rows.len() ==> row_wf(#[trigger] rows[i]),
    ensures
        exists|ord: Seq<int>, ords: Seq<Seq<int>>| comparison_ranked(rows@, ord, ords) && r@
            == spec_comparison_markdown(rows@, ord, ords),
{
    let keys = cpd_keys_exec(rows);
    let ord = rank_by_ratio(&keys);
    assert forall|j: int| 0 <= j < ord.len() implies #[trigger] ord@[j] < rows.len() by {
        assert(usize_ints(ord@)[j] == ord@[j] as int);
    }
    let mut out = str_chars("### Most active repositories (commits per active day)\n\n");
    push_str(&mut out, "| Repository | Commits | Active days | C/D |\n");
    push_str(&mut out, "|---|---|---|---|\n");
    let top = first3(&ord, false, rows.len());
    push_md_cpd_lines(&mut out, rows, &top);
    push_str(&mut out, "\n");
    push_str(&mut out, "### Least active repositories (commits per active day)\n\n");
    push_str(&mut out, "| Repository | Commits | Active days | C/D |\n");
    push_str(&mut out, "|---|---|---|---|\n");
    let bottom = first3(&ord, true, rows.len());
    push_md_cpd_lines(&mut out, rows, &bottom);
    push_str(&mut out, "\n");
    push_str(&mut out, "### Most active repositories by weekday (C/D)\n\n");
    push_str(&mut out, "| Weekday | #1 | #2 | #3 |\n");
    push_str(&mut out, "|---|---|---|---|\n");
    let ghost head = out@;
    let ghost mut ords: Seq<Seq<int>> = Seq::empty();
    let mut d: usize = 0;
    while d < 7
        invariant
            d <= 7,
            forall|i: int| 0 <= i < rows.len() ==> row_wf(#[trigger] rows[i]),
            ords.len() == d,
            forall|e: int| 0 <= e < d ==> crate::analytics::is_ranking(crate::analytics::wd_keys(rows@, e), #[trigger] ords[e]),
            out@ == head + md_wd_lines(rows@, ords, d as int),
        decreases 7 - d,
    {
        let k = wd_keys_exec(rows, d);
        let o = rank_by_ratio(&k);
        assert forall|j: int| 0 <= j < o.len() implies #[trigger] o@[j] < rows.len() by {
            assert(usize_ints(o@)[j] == o@[j] as int);
        }
        let t3 = first3(&o, false, rows.len());
        let es = wd_entries_exec(rows, &t3, d);
        let ghost ords_old = ords;
        proof {
            ords = ords.push(usize_ints(o@));
            assert(ords.take(d as int) =~= ords_old);
            lemma_md_wd_lines_prefix(rows@, ords, d as int);
        }
        push_md_wd_row(&mut out, &es, d);
        assert(md_wd_lines(rows@, ords, d + 1) == md_wd_lines(rows@, ords, d as int) + md_wd_line(rows@, ords[d as int], d as int));
        assert(ords[d as int] == usize_ints(o@));
        d = d + 1;
        assert(out@ =~= head + md_wd_lines(rows@, ords, d as int));
    }
    push_str(&mut out, "\n");
    assert(out@ =~= spec_comparison_markdown(rows@, usize_ints(ord@), ords));
    string_from_chars(&out)
}

proof fn lemma_md_wd_lines_prefix(rows: Seq<RepoComparisonRow>, ords: Seq<Seq<int>>, n: int)
    requires
        0 <= n <= ords.len(),
    ensures
        md_wd_lines(rows, ords.take(n), n) == md_wd_lines(rows, ords, n),
    decreases n,
{
    if n > 0 {
        lemma_md_wd_lines_prefix(rows, ords, n - 1);
        assert(ords.take(n).take(n - 1) =~= ords.take(n - 1));
        lemma_md_wd_lines_prefix(rows, ords.take(n), n - 1);
    }
}
} // verus!
