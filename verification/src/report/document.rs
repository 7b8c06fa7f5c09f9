//! The Markdown report of a comparison: scope, repository summary, top contributors,
//! activity charts, commit timeline, sizes, repositories compared, heatmap and failures.
use vstd::prelude::*;

use crate::analytics::{
    BarChartData, RepoComparisonRow, TimelineData, build_heatmap_data, build_hourly_chart_data, build_repo_comparison,
    build_timeline_data_since, build_weekday_chart_data, compares, date_totals_fit, heatmap_defined, hour_hists,
    hour_label, is_heatmap, is_timeline_since, repos_entries, row_wf, slot_total, weekday_hists, weekday_name,
};
use crate::chart_util::fit_in_usize;
use crate::date_util::{add_days, dow_in_range_exec, parse_ymd, parsed_or_epoch, spec_add_days, dow_in_range, spec_format_unix_timestamp, today_ymd};
use crate::model::{ComparisonReport, HeatmapData, PartialFailure, RepositoryAnalysis, spec_display_name};
use crate::report::authors::{AuthorRow, AuthorView, author_view, author_views, merged_authors, merged_authors_fit, ranked_authors, ranks_authors};
use crate::report::markdown::{
    heatmap_renderable, render_bar_chart_section, render_heatmap_section, render_repo_comparison_markdown,
    render_timeline_section, spec_bar_chart_section, spec_comparison_markdown, spec_heatmap_section,
    spec_timeline_section, timeline_renderable,
};
use crate::report::table::comparison_ranked;
use crate::settings::{Settings, UserView};
use crate::text::{int_digits, lowercase, nat_digits, push_all, push_i64_digits, push_str, push_u64_digits, str_chars, str_eq, string_from_chars, to_lowercase};

verus! {

broadcast use vstd::string::group_string_axioms;

/// At most this many authors are listed under "Top Contributors".
pub const TOP_AUTHORS: usize = 20;

// ---------------------------------------------------------------------------
// Sections
// ---------------------------------------------------------------------------

pub open spec fn scope_section(n: nat) -> Seq<char> {
    "## Scope\n\n"@ + "Analyzed **"@ + nat_digits(n) + if n == 1 {
        "** repository.\n\n"@
    } else {
        "** repositories.\n\n"@
    }
}

/// `| name | files | lines | commits | contributors |`
pub open spec fn summary_line(a: RepositoryAnalysis) -> Seq<char> {
    "| "@ + spec_display_name(a.repository.root@) + " | "@ + nat_digits(a.size.files as nat) + " | "@ + nat_digits(
        a.size.total_lines as nat,
    ) + " | "@ + nat_digits(a.contributions.total_commits as nat) + " | "@ + nat_digits(a.contributions.contributors@.len())
        + " |\n"@
}

pub open spec fn summary_lines(repos: Seq<RepositoryAnalysis>) -> Seq<char>
    decreases repos.len(),
{
    if repos.len() == 0 {
        Seq::empty()
    } else {
        summary_lines(repos.drop_last()) + summary_line(repos.last())
    }
}

/// `b / f` rounded to the nearest integer, halves to the even one; 0 when `f` is 0.
pub open spec fn rounded_div(b: nat, f: nat) -> nat {
    if f == 0 {
        0
    } else {
        let q = b / f;
        let r = b % f;
        if 2 * r > f || (2 * r == f && q % 2 == 1) {
            q + 1
        } else {
            q
        }
    }
}

/// `| name | files | directories | bytes | lines | average file size |`
pub open spec fn size_line(a: RepositoryAnalysis) -> Seq<char> {
    "| "@ + spec_display_name(a.repository.root@) + " | "@ + nat_digits(a.size.files as nat) + " | "@ + nat_digits(
        a.size.directories as nat,
    ) + " | "@ + nat_digits(a.size.total_bytes as nat) + " | "@ + nat_digits(a.size.total_lines as nat) + " | "@
        + nat_digits(rounded_div(a.size.total_bytes as nat, a.size.files as nat)) + " |\n"@
}

pub open spec fn size_lines(repos: Seq<RepositoryAnalysis>) -> Seq<char>
    decreases repos.len(),
{
    if repos.len() == 0 {
        Seq::empty()
    } else {
        size_lines(repos.drop_last()) + size_line(repos.last())
    }
}

/// The author column: the key when it is not the lowercased email of the author's first
/// row (a configured user name), else the git author name.
pub open spec fn author_label(a: AuthorView) -> Seq<char> {
    if a.0 != lowercase(a.2) {
        a.0
    } else {
        a.1
    }
}

/// `| author | commits | lines added | lines deleted | net |`
pub open spec fn author_line(a: AuthorView) -> Seq<char> {
    "| "@ + author_label(a) + " | "@ + nat_digits(a.3 as nat) + " | "@ + nat_digits(a.4 as nat) + " | "@ + nat_digits(
        a.5 as nat,
    ) + " | "@ + int_digits(a.6) + " |\n"@
}

pub open spec fn author_lines(v: Seq<AuthorView>) -> Seq<char>
    decreases v.len(),
{
    if v.len() == 0 {
        Seq::empty()
    } else {
        author_lines(v.drop_last()) + author_line(v.last())
    }
}

/// The first `TOP_AUTHORS` authors.
pub open spec fn top_authors(v: Seq<AuthorView>) -> Seq<AuthorView> {
    if v.len() <= TOP_AUTHORS {
        v
    } else {
        v.take(TOP_AUTHORS as int)
    }
}

pub open spec fn failure_line(f: PartialFailure) -> Seq<char> {
    "- **"@ + f.path@ + "**: "@ + f.reason@ + "\n"@
}

pub open spec fn failure_lines(fs: Seq<PartialFailure>) -> Seq<char>
    decreases fs.len(),
{
    if fs.len() == 0 {
        Seq::empty()
    } else {
        failure_lines(fs.drop_last()) + failure_line(fs.last())
    }
}

/// The failures, or nothing when there are none.
pub open spec fn failures_section(fs: Seq<PartialFailure>) -> Seq<char> {
    if fs.len() == 0 {
        Seq::empty()
    } else {
        "## Failures\n\n"@ + failure_lines(fs) + "\n"@
    }
}

// ---------------------------------------------------------------------------
// The whole report
// ---------------------------------------------------------------------------

/// `b` is the chart of commits per hour of the repositories.
pub open spec fn is_hourly_chart(b: BarChartData, repos: Seq<RepositoryAnalysis>) -> bool {
    &&& b.title@ == "Commits by Hour"@
    &&& b.bars.len() == 24
    &&& forall|h: int| 0 <= h < 24 ==> (#[trigger] b.bars[h]).0@ == hour_label(h as nat) && b.bars[h].1 == slot_total(hour_hists(repos), h)
}

/// `b` is the chart of commits per weekday of the repositories.
pub open spec fn is_weekday_chart(b: BarChartData, repos: Seq<RepositoryAnalysis>) -> bool {
    &&& b.title@ == "Commits by Weekday"@
    &&& b.bars.len() == 7
    &&& forall|d: int| 0 <= d < 7 ==> (#[trigger] b.bars[d]).0@ == weekday_name(d) && b.bars[d].1 == slot_total(weekday_hists(repos), d)
}

/// The values the report is made of besides the repositories themselves.
pub struct MarkdownParts {
    /// The authors merged by key, ordered by commits.
    pub ranked: Seq<AuthorView>,
    pub hourly: BarChartData,
    pub weekday: BarChartData,
    pub timeline: TimelineData,
    /// The "Compare Repositories" section, or nothing.
    pub comparison: Seq<char>,
    pub heatmap: HeatmapData,
}

/// The section comparing the repositories: only when there are at least two.
pub open spec fn is_comparison_section(s: Seq<char>, repos: Seq<RepositoryAnalysis>) -> bool {
    if repos.len() > 1 {
        exists|rows: Seq<RepoComparisonRow>, ord: Seq<int>, ords: Seq<Seq<int>>| {
            &&& rows.len() == repos.len()
            &&& forall|i: int| 0 <= i < rows.len() ==> compares(#[trigger] rows[i], repos[i])
            &&& comparison_ranked(rows, ord, ords)
            &&& s == "## Compare Repositories\n\n"@ + spec_comparison_markdown(rows, ord, ords)
        }
    } else {
        s.len() == 0
    }
}

/// `p` holds what the report shows of `report` for the settings `users` on the day `today`.
pub open spec fn markdown_parts(report: ComparisonReport, users: Seq<UserView>, today: Seq<char>, p: MarkdownParts) -> bool {
    let repos = report.repositories@;
    &&& ranks_authors(p.ranked, merged_authors(repos, users))
    &&& is_hourly_chart(p.hourly, repos)
    &&& is_weekday_chart(p.weekday, repos)
    &&& is_timeline_since(p.timeline, repos, spec_add_days(today, -90))
    &&& is_heatmap(p.heatmap, repos_entries(repos, None), today)
    &&& is_comparison_section(p.comparison, repos)
}

/// The report's text.
pub open spec fn markdown_text(report: ComparisonReport, p: MarkdownParts) -> Seq<char> {
    let repos = report.repositories@;
    "# Repolyze Analysis Report\n\n"@ + scope_section(repos.len()) + "## Repository Summary\n\n"@
        + "| Repository | Files | Lines | Commits | Contributors |\n"@ + "|---|---|---|---|---|\n"@ + summary_lines(repos)
        + "\n"@ + "## Top Contributors\n\n"@ + "| Author | Commits | Lines Added | Lines Deleted | Net |\n"@
        + "|---|---|---|---|---|\n"@ + author_lines(top_authors(p.ranked)) + "\n"@ + spec_bar_chart_section(p.hourly)
        + spec_bar_chart_section(p.weekday) + spec_timeline_section(p.timeline) + "## Size Comparison\n\n"@
        + "| Repository | Files | Directories | Bytes | Lines | Avg File Size |\n"@ + "|---|---|---|---|---|---|\n"@
        + size_lines(repos) + "\n"@ + p.comparison + spec_heatmap_section(p.heatmap) + failures_section(report.failures@)
}

/// The reports that can be written: the running sums of the merged authors fit, the charts,
/// timeline and heatmap stay within `usize`, and no day's commits exceed `u32::MAX`.
pub open spec fn markdown_defined(report: ComparisonReport, users: Seq<UserView>) -> bool {
    let repos = report.repositories@;
    &&& repos.len() <= 0xffff_ffff
    &&& forall|i: int| 0 <= i < repos.len() ==> (#[trigger] repos[i]).activity.wf()
    &&& merged_authors_fit(repos, users)
    &&& forall|b: BarChartData| #[trigger] is_hourly_chart(b, repos) ==> fit_in_usize(b.bars@)
    &&& forall|b: BarChartData| #[trigger] is_weekday_chart(b, repos) ==> fit_in_usize(b.bars@)
    &&& forall|t: TimelineData, c: Seq<char>| #[trigger] is_timeline_since(t, repos, c) ==> timeline_renderable(t.points@)
    &&& date_totals_fit(repos_entries(repos, None))
    &&& forall|h: HeatmapData, d: Seq<char>| #[trigger] is_heatmap(h, repos_entries(repos, None), d) ==> heatmap_renderable(h)
}

/// The days for which the heatmap can be laid out: the day 52 weeks earlier has a day of
/// the week within `i32` arithmetic.
pub open spec fn heatmap_day_ok(today: Seq<char>) -> bool {
    let p = parsed_or_epoch(spec_add_days(today, -364));
    dow_in_range(p.0 as int, p.1 as int, p.2)
}

/// Whether the heatmap can be laid out for the year ending on `today`.
pub fn heatmap_day_ok_exec(today: &str) -> (b: bool)
    ensures
        b == heatmap_day_ok(today@),
{
    let raw = add_days(today, -364);
    let (y, m, d) = match parse_ymd(raw.as_str()) {
        Some(t) => t,
        None => (1970, 1, 1),
    };
    dow_in_range_exec(y, m, d)
}

fn push_summary_line(out: &mut Vec<char>, a: &RepositoryAnalysis)
    ensures
        final(out)@ == old(out)@ + summary_line(*a),
{
    push_str(out, "| ");
    let name = a.repository.display_name();
    push_str(out, name.as_str());
    push_str(out, " | ");
    push_u64_digits(out, a.size.files);
    push_str(out, " | ");
    push_u64_digits(out, a.size.total_lines);
    push_str(out, " | ");
    push_u64_digits(out, a.contributions.total_commits);
    push_str(out, " | ");
    push_u64_digits(out, a.contributions.contributors.len() as u64);
    push_str(out, " |\n");
    assert(out@ =~= old(out)@ + summary_line(*a));
}

fn push_summary_lines(out: &mut Vec<char>, repos: &Vec<RepositoryAnalysis>)
    ensures
        final(out)@ == old(out)@ + summary_lines(repos@),
{
    let mut i: usize = 0;
    while i < repos.len()
        invariant
            i <= repos.len(),
            out@ == old(out)@ + summary_lines(repos@.take(i as int)),
        decreases repos.len() - i,
    {
        assert(repos@.take(i + 1).drop_last() =~= repos@.take(i as int));
        assert(repos@.take(i + 1).last() == repos@[i as int]);
        push_summary_line(out, &repos[i]);
        i = i + 1;
        assert(out@ =~= old(out)@ + summary_lines(repos@.take(i as int)));
    }
    assert(repos@.take(repos.len() as int) =~= repos@);
}

/// `b / f` rounded to the nearest integer, halves to the even one; 0 when `f` is 0.
fn rounded_div_exec(b: u64, f: u64) -> (r: u64)
    ensures
        r == rounded_div(b as nat, f as nat),
{
    if f == 0 {
        0
    } else {
        let q = b / f;
        let r = b % f;
        assert(q * f + r == b) by (nonlinear_arith)
            requires
                f > 0,
                q == b / f,
                r == b % f,
        ;
        if r > f - r || (r == f - r && q % 2 == 1) {
            assert(f >= 2 ==> q <= b / 2) by (nonlinear_arith)
                requires
                    f > 0,
                    q == b / f,
            ;
            q + 1
        } else {
            q
        }
    }
}

fn push_size_line(out: &mut Vec<char>, a: &RepositoryAnalysis)
    ensures
        final(out)@ == old(out)@ + size_line(*a),
{
    push_str(out, "| ");
    let name = a.repository.display_name();
    push_str(out, name.as_str());
    push_str(out, " | ");
    push_u64_digits(out, a.size.files);
    push_str(out, " | ");
    push_u64_digits(out, a.size.directories);
    push_str(out, " | ");
    push_u64_digits(out, a.size.total_bytes);
    push_str(out, " | ");
    push_u64_digits(out, a.size.total_lines);
    push_str(out, " | ");
    push_u64_digits(out, rounded_div_exec(a.size.total_bytes, a.size.files));
    push_str(out, " |\n");
    assert(out@ =~= old(out)@ + size_line(*a));
}

fn push_size_lines(out: &mut Vec<char>, repos: &Vec<RepositoryAnalysis>)
    ensures
        final(out)@ == old(out)@ + size_lines(repos@),
{
    let mut i: usize = 0;
    while i < repos.len()
        invariant
            i <= repos.len(),
            out@ == old(out)@ + size_lines(repos@.take(i as int)),
        decreases repos.len() - i,
    {
        assert(repos@.take(i + 1).drop_last() =~= repos@.take(i as int));
        assert(repos@.take(i + 1).last() == repos@[i as int]);
        push_size_line(out, &repos[i]);
        i = i + 1;
        assert(out@ =~= old(out)@ + size_lines(repos@.take(i as int)));
    }
    assert(repos@.take(repos.len() as int) =~= repos@);
}

fn push_author_line(out: &mut Vec<char>, a: &AuthorRow)
    ensures
        final(out)@ == old(out)@ + author_line(author_view(*a)),
{
    push_str(out, "| ");
    let lower = to_lowercase(a.2.as_str());
    if !str_eq(a.0.as_str(), lower.as_str()) {
        push_str(out, a.0.as_str());
    } else {
        push_str(out, a.1.as_str());
    }
    push_str(out, " | ");
    push_u64_digits(out, a.3);
    push_str(out, " | ");
    push_u64_digits(out, a.4);
    push_str(out, " | ");
    push_u64_digits(out, a.5);
    push_str(out, " | ");
    push_i64_digits(out, a.6);
    push_str(out, " |\n");
    assert(out@ =~= old(out)@ + author_line(author_view(*a)));
}

fn push_author_lines(out: &mut Vec<char>, rows: &Vec<AuthorRow>, n: usize)
    requires
        n <= rows.len(),
    ensures
        final(out)@ == old(out)@ + author_lines(author_views(rows@).take(n as int)),
{
    let ghost vs = author_views(rows@);
    let mut i: usize = 0;
    while i < n
        invariant
            i <= n <= rows.len(),
            vs == author_views(rows@),
            out@ == old(out)@ + author_lines(vs.take(i as int)),
        decreases n - i,
    {
        assert(vs.take(i + 1).drop_last() =~= vs.take(i as int));
        assert(vs.take(i + 1).last() == author_view(rows@[i as int]));
        push_author_line(out, &rows[i]);
        i = i + 1;
        assert(out@ =~= old(out)@ + author_lines(vs.take(i as int)));
    }
}

fn push_failures(out: &mut Vec<char>, fs: &Vec<PartialFailure>)
    ensures
        final(out)@ == old(out)@ + failures_section(fs@),
{
    if fs.len() == 0 {
        assert(out@ =~= old(out)@ + failures_section(fs@));
        return;
    }
    push_str(out, "## Failures\n\n");
    let ghost head = out@;
    let mut i: usize = 0;
    while i < fs.len()
        invariant
            i <= fs.len(),
            out@ == head + failure_lines(fs@.take(i as int)),
        decreases fs.len() - i,
    {
        assert(fs@.take(i + 1).drop_last() =~= fs@.take(i as int));
        assert(fs@.take(i + 1).last() == fs@[i as int]);
        push_str(out, "- **");
        push_str(out, fs[i].path.as_str());
        push_str(out, "**: ");
        push_str(out, fs[i].reason.as_str());
        push_str(out, "\n");
        i = i + 1;
        assert(out@ =~= head + failure_lines(fs@.take(i as int)));
    }
    assert(fs@.take(fs.len() as int) =~= fs@);
    push_str(out, "\n");
    assert(out@ =~= old(out)@ + failures_section(fs@));
}

/// The scope, the repository summary and the top contributors.
fn render_head(report: &ComparisonReport, settings: &Settings) -> (r: (Vec<char>, Ghost<Seq<AuthorView>>))
    requires
        merged_authors_fit(report.repositories@, settings@),
    ensures
        ranks_authors(r.1@, merged_authors(report.repositories@, settings@)),
        r.0@ == "# Repolyze Analysis Report\n\n"@ + scope_section(report.repositories@.len()) + "## Repository Summary\n\n"@
            + "| Repository | Files | Lines | Commits | Contributors |\n"@ + "|---|---|---|---|---|\n"@ + summary_lines(
            report.repositories@,
        ) + "\n"@ + "## Top Contributors\n\n"@ + "| Author | Commits | Lines Added | Lines Deleted | Net |\n"@
            + "|---|---|---|---|---|\n"@ + author_lines(top_authors(r.1@)) + "\n"@,
{
    let repos = &report.repositories;
    let mut out = str_chars("# Repolyze Analysis Report\n\n");
    push_str(&mut out, "## Scope\n\n");
    push_str(&mut out, "Analyzed **");
    push_u64_digits(&mut out, repos.len() as u64);
    if repos.len() == 1 {
        push_str(&mut out, "** repository.\n\n");
    } else {
        push_str(&mut out, "** repositories.\n\n");
    }
    push_str(&mut out, "## Repository Summary\n\n");
    push_str(&mut out, "| Repository | Files | Lines | Commits | Contributors |\n");
    push_str(&mut out, "|---|---|---|---|---|\n");
    push_summary_lines(&mut out, repos);
    push_str(&mut out, "\n");
    push_str(&mut out, "## Top Contributors\n\n");
    push_str(&mut out, "| Author | Commits | Lines Added | Lines Deleted | Net |\n");
    push_str(&mut out, "|---|---|---|---|---|\n");
    let ranked = ranked_authors(repos, settings);
    let n = if ranked.len() <= TOP_AUTHORS { ranked.len() } else { TOP_AUTHORS };
    push_author_lines(&mut out, &ranked, n);
    assert(author_views(ranked@).take(n as int) =~= top_authors(author_views(ranked@)));
    push_str(&mut out, "\n");
    let ghost rv = author_views(ranked@);
    assert(out@ =~= "# Repolyze Analysis Report\n\n"@ + scope_section(repos@.len()) + "## Repository Summary\n\n"@
        + "| Repository | Files | Lines | Commits | Contributors |\n"@ + "|---|---|---|---|---|\n"@ + summary_lines(repos@)
        + "\n"@ + "## Top Contributors\n\n"@ + "| Author | Commits | Lines Added | Lines Deleted | Net |\n"@
        + "|---|---|---|---|---|\n"@ + author_lines(top_authors(rv)) + "\n"@);
    (out, Ghost(rv))
}

/// The section comparing the repositories, when there are at least two.
fn render_comparison(repos: &Vec<RepositoryAnalysis>) -> (r: Vec<char>)
    requires
        forall|i: int| 0 <= i < repos.len() ==> (#[trigger] repos[i]).activity.wf(),
    ensures
        is_comparison_section(r@, repos@),
{
    if repos.len() > 1 {
        let rows = build_repo_comparison(repos);
        assert forall|i: int| 0 <= i < rows.len() implies row_wf(#[trigger] rows[i]) by {
            assert(compares(rows[i], repos[i]));
            assert(repos[i].activity.wf());
        }
        let s = render_repo_comparison_markdown(&rows);
        let mut out = str_chars("## Compare Repositories\n\n");
        let sv = str_chars(s.as_str());
        push_all(&mut out, &sv);
        let ghost (ord, ords) = choose|ord: Seq<int>, ords: Seq<Seq<int>>| comparison_ranked(rows@, ord, ords) && s@
            == spec_comparison_markdown(rows@, ord, ords);
        assert(rows@.len() == repos@.len());
        assert(forall|i: int| 0 <= i < rows@.len() ==> compares(#[trigger] rows@[i], repos@[i]));
        assert(comparison_ranked(rows@, ord, ords));
        assert(out@ == "## Compare Repositories\n\n"@ + spec_comparison_markdown(rows@, ord, ords));
        out
    } else {
        Vec::new()
    }
}

/// The Markdown report of `report` on the day `today` (which dates the timeline and the
/// heatmap).
pub fn render_markdown_on(report: &ComparisonReport, settings: &Settings, today: &str) -> (r: String)
    requires
        markdown_defined(*report, settings@),
        heatmap_day_ok(today@),
    ensures
        exists|p: MarkdownParts| #[trigger] markdown_parts(*report, settings@, today@, p) && r@ == markdown_text(*report, p),
{
    let repos = &report.repositories;
    let (mut out, Ghost(ranked)) = render_head(report, settings);
    let hourly = build_hourly_chart_data(repos);
    assert(is_hourly_chart(hourly, repos@));
    let hs = render_bar_chart_section(&hourly);
    let hv = str_chars(hs.as_str());
    push_all(&mut out, &hv);
    let weekday = build_weekday_chart_data(repos);
    assert(is_weekday_chart(weekday, repos@));
    let ws = render_bar_chart_section(&weekday);
    let wv = str_chars(ws.as_str());
    push_all(&mut out, &wv);
    let cutoff = add_days(today, -90);
    let timeline = build_timeline_data_since(repos, cutoff.as_str());
    assert(is_timeline_since(timeline, repos@, cutoff@));
    let ts = render_timeline_section(&timeline);
    let tv = str_chars(ts.as_str());
    push_all(&mut out, &tv);
    push_str(&mut out, "## Size Comparison\n\n");
    push_str(&mut out, "| Repository | Files | Directories | Bytes | Lines | Avg File Size |\n");
    push_str(&mut out, "|---|---|---|---|---|---|\n");
    push_size_lines(&mut out, repos);
    push_str(&mut out, "\n");
    let cmp = render_comparison(repos);
    push_all(&mut out, &cmp);
    assert(heatmap_defined(repos_entries(repos@, None), today@));
    let heatmap = build_heatmap_data(repos, None, today, settings);
    assert(is_heatmap(heatmap, repos_entries(repos@, None), today@));
    let hm = render_heatmap_section(&heatmap);
    let hmv = str_chars(hm.as_str());
    push_all(&mut out, &hmv);
    push_failures(&mut out, &report.failures);
    let ghost p = MarkdownParts { ranked, hourly, weekday, timeline, comparison: cmp@, heatmap };
    assert(markdown_parts(*report, settings@, today@, p));
    assert(out@ =~= markdown_text(*report, p));
    string_from_chars(&out)
}

/// The Markdown report of `report` on the day `today`, or `None` when the heatmap cannot be
/// laid out for that day (its first day falls outside `i32` arithmetic).
pub fn render_markdown_for_day(report: &ComparisonReport, settings: &Settings, today: &str) -> (r: Option<String>)
    requires
        markdown_defined(*report, settings@),
    ensures
        (r is None) == !heatmap_day_ok(today@),
        r matches Some(s) ==> exists|p: MarkdownParts|
            #[trigger] markdown_parts(*report, settings@, today@, p) && s@ == markdown_text(*report, p),
{
    if heatmap_day_ok_exec(today) {
        Some(render_markdown_on(report, settings, today))
    } else {
        None
    }
}

/// The report of one day: `None` exactly when the heatmap cannot be laid out for that day,
/// otherwise the Markdown text of the day.
pub open spec fn markdown_for_day(r: Option<String>, report: ComparisonReport, users: Seq<crate::settings::UserView>, today: Seq<char>) -> bool {
    &&& (r is None) == !heatmap_day_ok(today)
    &&& r matches Some(s) ==> exists|p: MarkdownParts|
        #[trigger] markdown_parts(report, users, today, p) && s@ == markdown_text(report, p)
}

/// The Markdown report of `report` as of today's date, which the clock gives: the report of
/// that one day, `None` when the heatmap cannot be laid out for it.
pub fn render_markdown(report: &ComparisonReport, settings: &Settings) -> (r: Option<String>)
    requires
        markdown_defined(*report, settings@),
    ensures
        exists|secs: nat| secs <= u64::MAX && #[trigger] markdown_for_day(r, *report, settings@, spec_format_unix_timestamp(secs)),
{
    let today = today_ymd();
    let r = render_markdown_for_day(report, settings, today.as_str());
    assert(markdown_for_day(r, *report, settings@, today@));
    r
}

} // verus!
