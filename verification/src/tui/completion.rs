//! What a finished analysis does to the interface's state.
use vstd::prelude::*;

use crate::analytics::{
    MergedRow, RepoComparisonRow, build_contribution_rows, build_heatmap_data, build_repo_comparison, compares,
    heatmap_defined, is_contribution_rows, is_heatmap, merge_events, merge_fits, merged_before, merged_keys,
    repos_entries, row_wf, sort_merged,
};
use crate::report::table::{
    ACTIVITY_TITLE, COMPARE_REPOS_TITLE, USERS_CONTRIBUTION_TITLE, contribution_totals_fit, is_comparison_table,
    render_repo_comparison_table, render_user_activity_table, render_users_contribution_table,
    spec_user_activity_table, spec_users_contribution_table,
};
use crate::users::{build_user_activity_rows, is_user_activity_rows};
use crate::model::{ComparisonReport, ContributorStats, HeatmapData, RepositoryAnalysis};
use crate::settings::{Settings, UserView, spec_canonical_key};
use crate::text::{nat_digits, push_all, push_str, push_u64_digits, str_chars, string_from_chars, string_of_str};
use crate::tui::app::{AnalyzeView, AppState, Screen};

verus! {

broadcast use vstd::string::group_string_axioms;

/// The outcome of an analysis run for the interface.
#[derive(Debug, Clone)]
pub struct AnalysisCompletion {
    pub report: ComparisonReport,
    pub table_text: String,
    pub heatmap_data: Option<HeatmapData>,
    /// Paths that could not be resolved plus repositories that failed.
    pub failure_count: usize,
    /// Why the analysis could not run at all.
    pub error_message: Option<String>,
    /// How long the analysis took, in milliseconds.
    pub elapsed: u64,
}

// ---------------------------------------------------------------------------
// Contributors to choose from
// ---------------------------------------------------------------------------

/// A contributor to choose: key, the name of its first row, and its commits.
pub type ChoiceView = (Seq<char>, Seq<char>, int);

pub open spec fn choice_view(r: MergedRow) -> ChoiceView {
    (r.0@, r.1@, r.2 as int)
}

pub open spec fn choice_views(v: Seq<MergedRow>) -> Seq<ChoiceView> {
    v.map_values(|r: MergedRow| choice_view(r))
}

pub open spec fn has_choice(rows: Seq<ChoiceView>, key: Seq<char>) -> bool {
    exists|k: int| 0 <= k < rows.len() && (#[trigger] rows[k]).0 == key
}

/// The choices with one contributor row of `key` added: its commits to that key's choice,
/// or a new choice with the row's name.
pub open spec fn add_choice(rows: Seq<ChoiceView>, key: Seq<char>, c: ContributorStats) -> Seq<ChoiceView> {
    if has_choice(rows, key) {
        let k = choose|k: int| 0 <= k < rows.len() && (#[trigger] rows[k]).0 == key;
        rows.update(k, (rows[k].0, rows[k].1, rows[k].2 + c.commits))
    } else {
        rows.push((key, c.name@, c.commits as int))
    }
}

pub open spec fn add_choices(rows: Seq<ChoiceView>, users: Seq<UserView>, cs: Seq<ContributorStats>) -> Seq<ChoiceView>
    decreases cs.len(),
{
    if cs.len() == 0 {
        rows
    } else {
        add_choice(add_choices(rows, users, cs.drop_last()), spec_canonical_key(users, cs.last().email@), cs.last())
    }
}

/// The contributors of every repository grouped by canonical key, in the order in which
/// the keys first occur.
pub open spec fn choices_of(repos: Seq<RepositoryAnalysis>, users: Seq<UserView>) -> Seq<ChoiceView>
    decreases repos.len(),
{
    if repos.len() == 0 {
        Seq::empty()
    } else {
        add_choices(choices_of(repos.drop_last(), users), users, repos.last().contributions.contributors@)
    }
}

pub open spec fn choices_within(rows: Seq<ChoiceView>) -> bool {
    forall|i: int| 0 <= i < rows.len() ==> (#[trigger] rows[i]).2 <= u64::MAX
}

pub open spec fn add_choices_fit(rows: Seq<ChoiceView>, users: Seq<UserView>, cs: Seq<ContributorStats>) -> bool
    decreases cs.len(),
{
    if cs.len() == 0 {
        true
    } else {
        add_choices_fit(rows, users, cs.drop_last()) && choices_within(add_choices(rows, users, cs))
    }
}

/// Every running commit count of the grouping fits in `u64`.
pub open spec fn choices_fit(repos: Seq<RepositoryAnalysis>, users: Seq<UserView>) -> bool
    decreases repos.len(),
{
    if repos.len() == 0 {
        true
    } else {
        choices_fit(repos.drop_last(), users) && add_choices_fit(
            choices_of(repos.drop_last(), users),
            users,
            repos.last().contributions.contributors@,
        )
    }
}

pub open spec fn choice_keys(rows: Seq<ChoiceView>) -> Seq<Seq<char>> {
    rows.map_values(|c: ChoiceView| c.0)
}

/// `ranked` holds the choices of `all`, each once, ordered by commits (most first) and then
/// by key.
pub open spec fn ranks_choices(ranked: Seq<ChoiceView>, all: Seq<ChoiceView>) -> bool {
    &&& ranked.len() == all.len()
    &&& forall|i: int| 0 <= i < ranked.len() ==> all.contains(#[trigger] ranked[i])
    &&& forall|j: int| 0 <= j < all.len() ==> ranked.contains(#[trigger] all[j])
    &&& forall|i: int, j: int| 0 <= i < j < ranked.len() ==> {
        let a = #[trigger] ranked[i];
        let b = #[trigger] ranked[j];
        a.2 > b.2 || (a.2 == b.2 && crate::text::seq_lt(a.0, b.0))
    }
}

proof fn lemma_add_choice_keys(rows: Seq<ChoiceView>, key: Seq<char>, c: ContributorStats)
    requires
        choice_keys(rows).no_duplicates(),
    ensures
        choice_keys(add_choice(rows, key, c)).no_duplicates(),
{
    let r = add_choice(rows, key, c);
    if has_choice(rows, key) {
        assert(choice_keys(r) =~= choice_keys(rows));
    } else {
        assert(choice_keys(r) =~= choice_keys(rows).push(key));
        assert forall|i: int, j: int| 0 <= i < choice_keys(r).len() && 0 <= j < choice_keys(r).len() && i != j implies choice_keys(r)[i]
            != choice_keys(r)[j] by {
            if i == rows.len() as int {
                assert(rows[j].0 == choice_keys(rows)[j]);
            } else if j == rows.len() as int {
                assert(rows[i].0 == choice_keys(rows)[i]);
            }
        }
    }
}

fn add_choice_exec(rows: &mut Vec<MergedRow>, key: String, c: &ContributorStats)
    requires
        choice_keys(choice_views(old(rows)@)).no_duplicates(),
        choices_within(add_choice(choice_views(old(rows)@), key@, *c)),
    ensures
        choice_views(final(rows)@) == add_choice(choice_views(old(rows)@), key@, *c),
        choice_keys(choice_views(final(rows)@)).no_duplicates(),
{
    let ghost vs = choice_views(rows@);
    proof {
        lemma_add_choice_keys(vs, key@, *c);
    }
    let mut i: usize = 0;
    while i < rows.len()
        invariant
            i <= rows.len(),
            vs == choice_views(rows@),
            rows@ == old(rows)@,
            choices_within(add_choice(vs, key@, *c)),
            choice_keys(add_choice(vs, key@, *c)).no_duplicates(),
            choice_keys(vs).no_duplicates(),
            forall|t: int| 0 <= t < i ==> (#[trigger] vs[t]).0 != key@,
        decreases rows.len() - i,
    {
        if rows[i].0 == key {
            assert(vs[i as int].0 == key@);
            assert(has_choice(vs, key@));
            let ghost k = choose|t: int| 0 <= t < vs.len() && (#[trigger] vs[t]).0 == key@;
            assert(0 <= k < vs.len());
            assert(choice_keys(vs).len() == vs.len());
            assert(choice_keys(vs)[k] == vs[k].0);
            assert(choice_keys(vs)[i as int] == vs[i as int].0);
            assert(k == i);
            let ghost after = add_choice(vs, key@, *c);
            assert(after[i as int].2 <= u64::MAX);
            let row: MergedRow = (rows[i].0.clone(), rows[i].1.clone(), rows[i].2 + c.commits, 0, 0, 0);
            rows.set(i, row);
            assert(choice_views(rows@) =~= add_choice(vs, key@, *c));
            return;
        }
        i = i + 1;
    }
    let row: MergedRow = (key, c.name.clone(), c.commits, 0, 0, 0);
    rows.push(row);
    assert(choice_views(rows@) =~= add_choice(vs, key@, *c));
}

proof fn lemma_choices_fit_prefix(repos: Seq<RepositoryAnalysis>, users: Seq<UserView>, n: int)
    requires
        choices_fit(repos, users),
        0 <= n <= repos.len(),
    ensures
        choices_fit(repos.take(n), users),
    decreases repos.len() - n,
{
    if n < repos.len() {
        lemma_choices_fit_prefix(repos, users, n + 1);
        assert(repos.take(n + 1).drop_last() =~= repos.take(n));
    } else {
        assert(repos.take(n) =~= repos);
    }
}

proof fn lemma_add_choices_fit_prefix(rows: Seq<ChoiceView>, users: Seq<UserView>, cs: Seq<ContributorStats>, n: int)
    requires
        add_choices_fit(rows, users, cs),
        0 <= n <= cs.len(),
    ensures
        add_choices_fit(rows, users, cs.take(n)),
        n > 0 ==> choices_within(add_choices(rows, users, cs.take(n))),
    decreases cs.len() - n,
{
    if n < cs.len() {
        lemma_add_choices_fit_prefix(rows, users, cs, n + 1);
        assert(cs.take(n + 1).drop_last() =~= cs.take(n));
    } else {
        assert(cs.take(n) =~= cs);
    }
}

fn group_choices(repos: &Vec<RepositoryAnalysis>, settings: &Settings) -> (r: Vec<MergedRow>)
    requires
        choices_fit(repos@, settings@),
    ensures
        choice_views(r@) == choices_of(repos@, settings@),
        choice_keys(choice_views(r@)).no_duplicates(),
{
    let ghost users = settings@;
    let mut rows: Vec<MergedRow> = Vec::new();
    assert(choice_views(rows@) =~= choices_of(repos@.take(0), users));
    let mut i: usize = 0;
    while i < repos.len()
        invariant
            i <= repos.len(),
            users == settings@,
            choices_fit(repos@, users),
            choice_views(rows@) == choices_of(repos@.take(i as int), users),
            choice_keys(choice_views(rows@)).no_duplicates(),
        decreases repos.len() - i,
    {
        assert(repos@.take(i + 1).drop_last() =~= repos@.take(i as int));
        assert(repos@.take(i + 1).last() == repos@[i as int]);
        proof {
            lemma_choices_fit_prefix(repos@, users, i + 1);
        }
        let cs = &repos[i].contributions.contributors;
        let ghost base = choice_views(rows@);
        let mut j: usize = 0;
        while j < cs.len()
            invariant
                j <= cs.len(),
                users == settings@,
                add_choices_fit(base, users, cs@),
                choice_views(rows@) == add_choices(base, users, cs@.take(j as int)),
                choice_keys(choice_views(rows@)).no_duplicates(),
            decreases cs.len() - j,
        {
            assert(cs@.take(j + 1).drop_last() =~= cs@.take(j as int));
            assert(cs@.take(j + 1).last() == cs@[j as int]);
            proof {
                lemma_add_choices_fit_prefix(base, users, cs@, j + 1);
            }
            let key = settings.canonical_key(cs[j].email.as_str());
            add_choice_exec(&mut rows, key, &cs[j]);
            j = j + 1;
        }
        assert(cs@.take(cs.len() as int) =~= cs@);
        i = i + 1;
    }
    assert(repos@.take(repos.len() as int) =~= repos@);
    rows
}

/// The contributors of a report as `(key, name)`: one per canonical key, with the name of
/// its first row, ordered by commits (most first) and then by key.
pub fn contributor_choices(repos: &Vec<RepositoryAnalysis>, settings: &Settings) -> (r: Vec<(String, String)>)
    requires
        choices_fit(repos@, settings@),
    ensures
        exists|ranked: Seq<ChoiceView>| #[trigger] ranks_choices(ranked, choices_of(repos@, settings@)) && r@.len() == ranked.len()
            && forall|i: int| 0 <= i < ranked.len() ==> (#[trigger] r@[i]).0@ == ranked[i].0 && r@[i].1@ == ranked[i].1,
{
    let rows = group_choices(repos, settings);
    let ghost all = choice_views(rows@);
    assert(merged_keys(rows@) =~= choice_keys(all));
    let out = sort_merged(rows);
    let ghost ranked = choice_views(out@);
    proof {
        vstd::seq_lib::to_multiset_len(out@);
        vstd::seq_lib::to_multiset_len(rows@);
        assert forall|i: int| 0 <= i < ranked.len() implies all.contains(#[trigger] ranked[i]) by {
            vstd::seq_lib::to_multiset_contains(out@, out@[i]);
            vstd::seq_lib::to_multiset_contains(rows@, out@[i]);
            assert(out@.contains(out@[i]));
            assert(rows@.contains(out@[i]));
            let t = choose|t: int| 0 <= t < rows@.len() && rows@[t] == out@[i];
            assert(all[t] == choice_view(rows@[t]));
            assert(ranked[i] == choice_view(out@[i]));
        }
        assert forall|j: int| 0 <= j < all.len() implies ranked.contains(#[trigger] all[j]) by {
            vstd::seq_lib::to_multiset_contains(rows@, rows@[j]);
            vstd::seq_lib::to_multiset_contains(out@, rows@[j]);
            assert(rows@.contains(rows@[j]));
            assert(out@.contains(rows@[j]));
            let t = choose|t: int| 0 <= t < out@.len() && out@[t] == rows@[j];
            assert(all[j] == choice_view(rows@[j]));
            assert(ranked[t] == choice_view(out@[t]));
        }
        assert forall|i: int, j: int| 0 <= i < j < ranked.len() implies {
            let a = #[trigger] ranked[i];
            let b = #[trigger] ranked[j];
            a.2 > b.2 || (a.2 == b.2 && crate::text::seq_lt(a.0, b.0))
        } by {
            assert(merged_before(out@[i], out@[j]));
        }
    }
    let mut r: Vec<(String, String)> = Vec::new();
    let mut i: usize = 0;
    while i < out.len()
        invariant
            i <= out.len(),
            ranked == choice_views(out@),
            r@.len() == i,
            forall|t: int| 0 <= t < i ==> (#[trigger] r@[t]).0@ == ranked[t].0 && r@[t].1@ == ranked[t].1,
        decreases out.len() - i,
    {
        r.push((out[i].0.clone(), out[i].1.clone()));
        i = i + 1;
    }
    assert(ranks_choices(ranked, choices_of(repos@, settings@)));
    r
}

// ---------------------------------------------------------------------------
// Applying a finished analysis
// ---------------------------------------------------------------------------

pub open spec fn completion_status(n: nat) -> Seq<char> {
    "Analysis complete with "@ + nat_digits(n) + " error(s)"@
}

/// Whether a finished analysis leads to choosing a contributor: the effort view was asked
/// for and no contributor is chosen yet.
pub open spec fn picks_contributor(app: AppState) -> bool {
    app.selected_analyze_view == AnalyzeView::UserEffort && app.selected_email is None
}

/// Stores a finished analysis in the interface's state: on an error only the message;
/// otherwise the table, heatmap and report, a status that counts the failures, and, when
/// the effort view waits for a contributor, the contributors to choose from on the
/// selection screen.
pub fn apply_analysis_completion(app: &mut AppState, completion: AnalysisCompletion, settings: &Settings)
    requires
        choices_fit(completion.report.repositories@, settings@),
    ensures
        match completion.error_message {
            Some(msg) => *final(app) == (AppState {
                is_loading: false,
                analysis_elapsed: completion.elapsed,
                status_message: msg,
                analysis_result: None,
                analysis_table: None,
                ..*old(app)
            }),
            None => {
                &&& final(app).is_loading == false
                &&& final(app).analysis_elapsed == completion.elapsed
                &&& final(app).analysis_table == Some(completion.table_text)
                &&& final(app).heatmap_data == completion.heatmap_data
                &&& final(app).analysis_result == Some(completion.report)
                &&& final(app).errors.len() == completion.report.failures.len()
                &&& forall|j: int| #![trigger final(app).errors@[j]] 0 <= j < completion.report.failures.len() ==> final(app).errors@[j].path@
                    == completion.report.failures@[j].path@ && final(app).errors@[j].reason@ == completion.report.failures@[j].reason@
                &&& final(app).input_paths@.len() == 0
                &&& final(app).input_buffer@.len() == 0
                &&& final(app).status_message@ == if completion.failure_count > 0 {
                    completion_status(completion.failure_count as nat)
                } else {
                    "Analysis complete"@
                }
                &&& picks_contributor(*old(app)) ==> {
                    &&& exists|ranked: Seq<ChoiceView>| #[trigger] ranks_choices(ranked, choices_of(completion.report.repositories@, settings@))
                        && final(app).contributor_list@.len() == ranked.len() && forall|i: int| 0 <= i < ranked.len()
                        ==> (#[trigger] final(app).contributor_list@[i]).0@ == ranked[i].0 && final(app).contributor_list@[i].1@
                        == ranked[i].1
                    &&& final(app).contributor_filter@.len() == 0
                    &&& final(app).contributor_selected == 0
                    &&& final(app).scroll_offset == 0
                    &&& final(app).active_screen == Screen::UserSelect
                }
                &&& !picks_contributor(*old(app)) ==> {
                    &&& final(app).contributor_list == old(app).contributor_list
                    &&& final(app).contributor_filter == old(app).contributor_filter
                    &&& final(app).contributor_selected == old(app).contributor_selected
                    &&& final(app).scroll_offset == old(app).scroll_offset
                    &&& final(app).active_screen == old(app).active_screen
                }
                &&& *final(app) == (AppState {
                    is_loading: false,
                    analysis_elapsed: completion.elapsed,
                    analysis_table: final(app).analysis_table,
                    heatmap_data: final(app).heatmap_data,
                    analysis_result: final(app).analysis_result,
                    errors: final(app).errors,
                    input_paths: final(app).input_paths,
                    input_buffer: final(app).input_buffer,
                    status_message: final(app).status_message,
                    contributor_list: final(app).contributor_list,
                    contributor_filter: final(app).contributor_filter,
                    contributor_selected: final(app).contributor_selected,
                    scroll_offset: final(app).scroll_offset,
                    active_screen: final(app).active_screen,
                    ..*old(app)
                })
            },
        },
{
    app.is_loading = false;
    app.analysis_elapsed = completion.elapsed;
    match completion.error_message {
        Some(msg) => {
            app.status_message = msg;
            app.analysis_result = None;
            app.analysis_table = None;
        },
        None => {
            let picks = app.selected_analyze_view == AnalyzeView::UserEffort && app.selected_email.is_none();
            let choices = if picks {
                Some(contributor_choices(&completion.report.repositories, settings))
            } else {
                None
            };
            app.analysis_table = Some(completion.table_text);
            app.heatmap_data = completion.heatmap_data;
            app.set_result(completion.report);
            if completion.failure_count > 0 {
                let mut v = str_chars("Analysis complete with ");
                push_u64_digits(&mut v, completion.failure_count as u64);
                push_str(&mut v, " error(s)");
                app.status_message = string_from_chars(&v);
            }
            if let Some(list) = choices {
                app.contributor_list = list;
                app.contributor_filter = String::new();
                app.contributor_selected = 0;
                app.scroll_offset = 0;
                app.active_screen = Screen::UserSelect;
            }
        },
    }
}

// ---------------------------------------------------------------------------
// The text of an analysis view
// ---------------------------------------------------------------------------

pub open spec fn compares_all(rows: Seq<RepoComparisonRow>, repos: Seq<RepositoryAnalysis>) -> bool {
    &&& rows.len() == repos.len()
    &&& forall|i: int| 0 <= i < rows.len() ==> compares(#[trigger] rows[i], repos[i])
}

/// `t` is the plain-text comparison of the repositories.
pub open spec fn is_comparison_of(t: Seq<char>, repos: Seq<RepositoryAnalysis>) -> bool {
    exists|rows: Seq<RepoComparisonRow>| #[trigger] compares_all(rows, repos) && is_comparison_table(t, rows)
}

/// `t` is the contribution table of the repositories.
pub open spec fn is_contribution_text(t: Seq<char>, repos: Seq<RepositoryAnalysis>, users: Seq<UserView>) -> bool {
    exists|rows: Seq<crate::report::table::UsersContributionRow>| #[trigger] is_contribution_rows(rows, repos, users)
        && t == spec_users_contribution_table(rows)
}

/// `t` is the table of most active days and hours of the repositories.
pub open spec fn is_activity_text(t: Seq<char>, repos: Seq<RepositoryAnalysis>, users: Seq<UserView>) -> bool {
    exists|rows: Seq<crate::users::UserActivityRow>| #[trigger] is_user_activity_rows(rows, repos, users) && t
        == spec_user_activity_table(rows)
}

/// The full view: contributions, activity, and (for several repositories) the comparison
/// when it says anything.
pub open spec fn full_view_text(c: Seq<char>, a: Seq<char>, k: Seq<char>, n: nat) -> Seq<char> {
    "#1 "@ + USERS_CONTRIBUTION_TITLE@ + "\n\n"@ + c + "\n\n#2 "@ + ACTIVITY_TITLE@ + "\n\n"@ + a + if n > 1 && k.len() > 0 {
        "\n\n#4 "@ + COMPARE_REPOS_TITLE@ + "\n\n"@ + k
    } else {
        Seq::empty()
    }
}

/// `r` is the text and heatmap of `view` for the repositories on the day `today`.
pub open spec fn is_view_text(r: (String, Option<HeatmapData>), view: AnalyzeView, repos: Seq<RepositoryAnalysis>, users: Seq<UserView>, today: Seq<char>) -> bool {
    match view {
        AnalyzeView::Contribution => r.1 is None && is_contribution_text(r.0@, repos, users),
        AnalyzeView::Activity => r.1 is None && is_activity_text(r.0@, repos, users),
        AnalyzeView::ActivityHeatmap => r.0@.len() == 0 && (r.1 matches Some(h) && is_heatmap(h, repos_entries(repos, None), today)),
        AnalyzeView::CompareRepos => r.1 is None && is_comparison_of(r.0@, repos),
        AnalyzeView::All => {
            &&& (r.1 matches Some(h) && is_heatmap(h, repos_entries(repos, None), today))
            &&& exists|c: Seq<char>, a: Seq<char>, k: Seq<char>| #![trigger full_view_text(c, a, k, repos.len())] {
                &&& is_contribution_text(c, repos, users)
                &&& is_activity_text(a, repos, users)
                &&& (repos.len() > 1 ==> is_comparison_of(k, repos))
                &&& r.0@ == full_view_text(c, a, k, repos.len())
            }
        },
        _ => r.0@.len() == 0 && r.1 is None,
    }
}

pub open spec fn uses_contributions(view: AnalyzeView) -> bool {
    view == AnalyzeView::Contribution || view == AnalyzeView::Activity || view == AnalyzeView::All
}

pub open spec fn uses_heatmap(view: AnalyzeView) -> bool {
    view == AnalyzeView::ActivityHeatmap || view == AnalyzeView::All
}

pub open spec fn uses_comparison(view: AnalyzeView) -> bool {
    view == AnalyzeView::CompareRepos || view == AnalyzeView::All
}

/// The inputs the view can be computed for: the merged sums and the table's totals fit, the
/// activity histograms have their shape, and the heatmap can be laid out for `today`.
pub open spec fn view_text_defined(view: AnalyzeView, repos: Seq<RepositoryAnalysis>, users: Seq<UserView>, today: Seq<char>) -> bool {
    &&& uses_contributions(view) ==> merge_fits(merge_events(repos, users))
    &&& (view == AnalyzeView::Contribution || view == AnalyzeView::All) ==> forall|rows: Seq<crate::report::table::UsersContributionRow>|
        #[trigger] is_contribution_rows(rows, repos, users) ==> contribution_totals_fit(rows)
    &&& uses_comparison(view) ==> forall|i: int| 0 <= i < repos.len() ==> (#[trigger] repos[i]).activity.wf()
    &&& uses_heatmap(view) ==> heatmap_defined(repos_entries(repos, None), today)
}

fn contribution_text(repos: &Vec<RepositoryAnalysis>, settings: &Settings) -> (t: String)
    requires
        merge_fits(merge_events(repos@, settings@)),
        forall|rows: Seq<crate::report::table::UsersContributionRow>| #[trigger] is_contribution_rows(rows, repos@, settings@)
            ==> contribution_totals_fit(rows),
    ensures
        is_contribution_text(t@, repos@, settings@),
{
    let rows = build_contribution_rows(repos, settings);
    assert(is_contribution_rows(rows@, repos@, settings@));
    render_users_contribution_table(&rows)
}

fn activity_text(repos: &Vec<RepositoryAnalysis>, settings: &Settings) -> (t: String)
    requires
        merge_fits(merge_events(repos@, settings@)),
    ensures
        is_activity_text(t@, repos@, settings@),
{
    let rows = build_user_activity_rows(repos, settings);
    assert(is_user_activity_rows(rows@, repos@, settings@));
    render_user_activity_table(&rows)
}

fn comparison_text(repos: &Vec<RepositoryAnalysis>) -> (t: String)
    requires
        forall|i: int| 0 <= i < repos.len() ==> (#[trigger] repos[i]).activity.wf(),
    ensures
        is_comparison_of(t@, repos@),
{
    let rows = build_repo_comparison(repos);
    assert forall|i: int| 0 <= i < rows.len() implies row_wf(#[trigger] rows[i]) by {
        assert(compares(rows[i], repos[i]));
        assert(repos[i].activity.wf());
    }
    let t = render_repo_comparison_table(&rows);
    assert(compares_all(rows@, repos@));
    t
}

/// The full view's text and heatmap.
#[verifier::spinoff_prover]
#[verifier::rlimit(50)]
fn full_view(repos: &Vec<RepositoryAnalysis>, settings: &Settings, today: &str) -> (r: (String, Option<HeatmapData>))
    requires
        view_text_defined(AnalyzeView::All, repos@, settings@, today@),
    ensures
        is_view_text(r, AnalyzeView::All, repos@, settings@, today@),
{
    let c = contribution_text(repos, settings);
    let a = activity_text(repos, settings);
    let mut out = str_chars("#1 ");
    push_str(&mut out, USERS_CONTRIBUTION_TITLE);
    push_str(&mut out, "\n\n");
    push_str(&mut out, c.as_str());
    push_str(&mut out, "\n\n#2 ");
    push_str(&mut out, ACTIVITY_TITLE);
    push_str(&mut out, "\n\n");
    push_str(&mut out, a.as_str());
    let ghost mut k: Seq<char> = Seq::empty();
    if repos.len() > 1 {
        let t = comparison_text(repos);
        proof {
            k = t@;
        }
        if !t.as_str().is_empty() {
            push_str(&mut out, "\n\n#4 ");
            push_str(&mut out, COMPARE_REPOS_TITLE);
            push_str(&mut out, "\n\n");
            push_str(&mut out, t.as_str());
        }
    }
    let h = build_heatmap_data(repos, None, today, settings);
    assert(out@ =~= full_view_text(c@, a@, k, repos@.len()));
    (string_from_chars(&out), Some(h))
}

/// The text (without the header) and the heatmap that the interface shows for `view`; the
/// effort view and the chart views have no text here.
#[verifier::spinoff_prover]
pub fn analysis_view_text(repos: &Vec<RepositoryAnalysis>, view: AnalyzeView, settings: &Settings, today: &str) -> (r: (String, Option<HeatmapData>))
    requires
        view_text_defined(view, repos@, settings@, today@),
    ensures
        is_view_text(r, view, repos@, settings@, today@),
{
    match view {
        AnalyzeView::Contribution => (contribution_text(repos, settings), None),
        AnalyzeView::Activity => (activity_text(repos, settings), None),
        AnalyzeView::ActivityHeatmap => {
            let h = build_heatmap_data(repos, None, today, settings);
            (String::new(), Some(h))
        },
        AnalyzeView::CompareRepos => (comparison_text(repos), None),
        AnalyzeView::All => full_view(repos, settings, today),
        _ => (String::new(), None),
    }
}

} // verus!
