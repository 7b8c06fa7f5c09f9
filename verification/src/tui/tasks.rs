//! The decisions around the interface's background work on branches: whether a listing can
//! start, what its per-repository results come to, and how deletions are recorded.
use vstd::prelude::*;

use crate::git::branches::{BranchInfo, DeleteResult};
use crate::text::{nat_digits, pad_left, push_pad_left, push_str, push_u64_digits, str_chars, string_from_chars, string_of_str, u64_chars};
use crate::tui::app::{AppState, BranchProgress, GitToolsState, Screen};

verus! {

broadcast use vstd::string::group_string_axioms;

/// Starts a branch listing when repositories are selected: the interface shows its spinner.
/// Without repositories it records the error and nothing starts.
pub fn begin_branch_listing(app: &mut AppState) -> (started: bool)
    ensures
        started == (old(app).git_tools.selected_repos.len() > 0),
        started ==> *final(app) == (AppState { is_loading: true, spinner_frame: 0, ..*old(app) }),
        !started ==> *final(app) == (AppState {
            git_tools: GitToolsState { error: final(app).git_tools.error, ..old(app).git_tools },
            ..*old(app)
        }),
        !started ==> (final(app).git_tools.error matches Some(e) && e@ == "No repositories selected"@),
{
    if app.git_tools.selected_repos.len() == 0 {
        app.git_tools.error = Some(string_of_str("No repositories selected"));
        false
    } else {
        app.is_loading = true;
        app.spinner_frame = 0;
        true
    }
}

/// The branches of several listings joined in order.
pub open spec fn listed_branches(results: Seq<Result<Vec<BranchInfo>, String>>) -> Seq<BranchInfo>
    decreases results.len(),
{
    if results.len() == 0 {
        Seq::empty()
    } else {
        listed_branches(results.drop_last()) + match results.last() {
            Ok(v) => v@,
            Err(_) => Seq::empty(),
        }
    }
}

/// The errors of several listings joined with `"; "`.
pub open spec fn listing_errors(results: Seq<Result<Vec<BranchInfo>, String>>) -> Seq<Seq<char>>
    decreases results.len(),
{
    if results.len() == 0 {
        Seq::empty()
    } else {
        listing_errors(results.drop_last()) + match results.last() {
            Ok(_) => Seq::empty(),
            Err(e) => seq![e@],
        }
    }
}

pub open spec fn joined(parts: Seq<Seq<char>>, sep: Seq<char>) -> Seq<char>
    decreases parts.len(),
{
    if parts.len() == 0 {
        Seq::empty()
    } else if parts.len() == 1 {
        parts[0]
    } else {
        joined(parts.drop_last(), sep) + sep + parts.last()
    }
}

/// The outcome of listing the branches of each selected repository: the error messages
/// joined with `"; "` when no branch was found and some listing failed, else every branch
/// found.
pub fn combine_branch_listings(results: Vec<Result<Vec<BranchInfo>, String>>) -> (r: Result<Vec<BranchInfo>, String>)
    ensures
        (listed_branches(results@).len() == 0 && listing_errors(results@).len() > 0) ==> (r matches Err(e) && e@ == joined(
            listing_errors(results@),
            "; "@,
        )),
        !(listed_branches(results@).len() == 0 && listing_errors(results@).len() > 0) ==> (r matches Ok(v) && v@
            == listed_branches(results@)),
{
    let mut all: Vec<BranchInfo> = Vec::new();
    let mut errors: Vec<char> = Vec::new();
    let mut n_errors: usize = 0;
    let mut rest = results;
    let ghost input = rest@;
    let mut i: usize = 0;
    assert(input.len() == rest.len());
    while rest.len() > 0
        invariant
            i + rest.len() == input.len(),
            input.len() <= usize::MAX,
            rest@ == input.skip(i as int),
            all@ == listed_branches(input.take(i as int)),
            n_errors == listing_errors(input.take(i as int)).len(),
            n_errors <= i,
            errors@ == joined(listing_errors(input.take(i as int)), "; "@),
        decreases rest.len(),
    {
        let ghost before_rest = rest@;
        let item = rest.remove(0);
        assert(input.take(i + 1).drop_last() =~= input.take(i as int));
        assert(input.skip(i as int)[0] == input[i as int]);
        assert(input.take(i + 1).last() == input[i as int]);
        assert(rest@ =~= input.skip(i + 1));
        match item {
            Ok(mut v) => {
                let ghost before = all@;
                all.append(&mut v);
                assert(all@ =~= listed_branches(input.take(i + 1)));
                assert(listing_errors(input.take(i + 1)) =~= listing_errors(input.take(i as int)));
            },
            Err(e) => {
                if n_errors > 0 {
                    push_str(&mut errors, "; ");
                }
                let ev = str_chars(e.as_str());
                crate::text::push_all(&mut errors, &ev);
                n_errors = n_errors + 1;
                let ghost p = listing_errors(input.take(i as int));
                assert(listing_errors(input.take(i + 1)) =~= p.push(e@));
                assert(p.push(e@).drop_last() =~= p);
                assert(p.len() == 0 ==> p.push(e@)[0] == e@);
                assert(all@ =~= listed_branches(input.take(i + 1)));
                assert(errors@ =~= joined(listing_errors(input.take(i + 1)), "; "@));
            },
        }
        i = i + 1;
    }
    assert(input.take(i as int) =~= input);
    if all.len() == 0 && n_errors > 0 {
        Err(string_from_chars(&errors))
    } else {
        Ok(all)
    }
}

/// Stores the outcome of a branch listing: the branches and their list screen, or the error
/// (the input screen stays to show it).
pub fn apply_branch_listing(app: &mut AppState, result: Result<Vec<BranchInfo>, String>)
    ensures
        match result {
            Ok(v) => *final(app) == (AppState {
                is_loading: false,
                active_screen: Screen::GitToolsBranchList,
                git_tools: GitToolsState { branches: v, ..old(app).git_tools },
                ..*old(app)
            }),
            Err(e) => *final(app) == (AppState {
                is_loading: false,
                git_tools: GitToolsState { error: Some(e), ..old(app).git_tools },
                ..*old(app)
            }),
        },
{
    app.is_loading = false;
    match result {
        Ok(v) => {
            app.git_tools.branches = v;
            app.active_screen = Screen::GitToolsBranchList;
        },
        Err(e) => {
            app.git_tools.error = Some(e);
        },
    }
}

/// Records the outcome of deleting the branch of progress row `index`: the row is marked
/// processed with the local and remote outcomes, the next row becomes the current one, and
/// the deletion is done after the last row.
pub fn record_deletion(tools: &mut GitToolsState, index: usize, result: &DeleteResult)
    requires
        index < old(tools).progress.len(),
    ensures
        final(tools).progress@ == old(tools).progress@.update(
            index as int,
            BranchProgress {
                local_ok: result.local_ok,
                remote_ok: result.remote_ok,
                processed: true,
                ..old(tools).progress@[index as int]
            },
        ),
        *final(tools) == (GitToolsState {
            progress: final(tools).progress,
            current_index: (index + 1) as usize,
            done: index + 1 == old(tools).progress.len(),
            ..*old(tools)
        }),
{
    let row = BranchProgress {
        name: tools.progress[index].name.clone(),
        local_ok: result.local_ok,
        remote_ok: result.remote_ok,
        processed: true,
    };
    let ghost old_row = tools.progress@[index as int];
    assert(row.name@ == old_row.name@);
    tools.progress.set(index, row);
    tools.current_index = index + 1;
    tools.done = index + 1 == tools.progress.len();
}

// ---------------------------------------------------------------------------
// Exporting the report
// ---------------------------------------------------------------------------

/// Whether there is a report to export; without one the status says so.
pub fn begin_export(app: &mut AppState) -> (ready: bool)
    ensures
        ready == (old(app).analysis_result is Some),
        ready ==> *final(app) == *old(app),
        !ready ==> *final(app) == (AppState { status_message: final(app).status_message, ..*old(app) }),
        !ready ==> final(app).status_message@ == "No report to export"@,
{
    if app.analysis_result.is_none() {
        app.status_message = string_of_str("No report to export");
        false
    } else {
        true
    }
}

/// `repolyze-report-<date>-<HHMMSS>.md` for the time of day `secs` seconds after midnight
/// (taken modulo a day).
pub open spec fn spec_export_file_name(date: Seq<char>, secs: nat) -> Seq<char> {
    let t = secs % 86400;
    "repolyze-report-"@ + date + "-"@ + pad_left(nat_digits(t / 3600), 2, '0') + pad_left(nat_digits((t % 3600) / 60), 2, '0')
        + pad_left(nat_digits(t % 60), 2, '0') + ".md"@
}

/// The name of the exported report for the day `date` and the clock's seconds `secs`.
pub fn export_file_name(date: &str, secs: u64) -> (r: String)
    ensures
        r@ == spec_export_file_name(date@, secs as nat),
{
    let t = secs % 86400;
    let mut v = str_chars("repolyze-report-");
    push_str(&mut v, date);
    push_str(&mut v, "-");
    let h = u64_chars(t / 3600);
    push_pad_left(&mut v, &h, 2, '0');
    let m = u64_chars((t % 3600) / 60);
    push_pad_left(&mut v, &m, 2, '0');
    let sec = u64_chars(t % 60);
    push_pad_left(&mut v, &sec, 2, '0');
    push_str(&mut v, ".md");
    assert(v@ =~= spec_export_file_name(date@, secs as nat));
    string_from_chars(&v)
}

/// The status after writing the report to `path`, or failing to with `error`.
pub fn export_status(path: &str, outcome: Result<(), String>) -> (r: String)
    ensures
        match outcome {
            Ok(()) => r@ == "Exported to "@ + path@,
            Err(e) => r@ == "Export failed: "@ + e@,
        },
{
    match outcome {
        Ok(()) => {
            let mut v = str_chars("Exported to ");
            push_str(&mut v, path);
            string_from_chars(&v)
        },
        Err(e) => {
            let mut v = str_chars("Export failed: ");
            push_str(&mut v, e.as_str());
            string_from_chars(&v)
        },
    }
}

/// Stores the repositories found in the working directory for the Git tools: a single one
/// is selected and checked, several start unchecked; without any, the error says so.
pub fn set_tools_workspace(tools: &mut GitToolsState, found: Option<Vec<String>>)
    ensures
        match found {
            Some(repos) => {
                &&& final(tools).repos@ == repos@
                &&& repos@.len() == 1 ==> final(tools).selected_repos@ == repos@ && final(tools).repo_checked@ == seq![true]
                &&& repos@.len() != 1 ==> final(tools).selected_repos == old(tools).selected_repos
                    && final(tools).repo_checked@ == Seq::new(repos@.len(), |i: int| false)
                &&& *final(tools) == (GitToolsState {
                    repos: final(tools).repos,
                    selected_repos: final(tools).selected_repos,
                    repo_checked: final(tools).repo_checked,
                    ..*old(tools)
                })
            },
            None => *final(tools) == (GitToolsState {
                workspace_error: final(tools).workspace_error,
                ..*old(tools)
            }) && (final(tools).workspace_error matches Some(e) && e@ == "No git repositories found in this directory."@),
        },
{
    match found {
        Some(repos) => {
            if repos.len() == 1 {
                let mut selected: Vec<String> = Vec::new();
                selected.push(repos[0].clone());
                assert(selected@ =~= repos@);
                tools.selected_repos = selected;
                let mut checked: Vec<bool> = Vec::new();
                checked.push(true);
                assert(checked@ =~= seq![true]);
                tools.repo_checked = checked;
            } else {
                let mut checked: Vec<bool> = Vec::new();
                let mut i: usize = 0;
                while i < repos.len()
                    invariant
                        i <= repos.len(),
                        checked@ =~= Seq::new(i as nat, |j: int| false),
                    decreases repos.len() - i,
                {
                    checked.push(false);
                    i = i + 1;
                }
                tools.repo_checked = checked;
            }
            tools.repos = repos;
        },
        None => {
            tools.workspace_error = Some(string_of_str("No git repositories found in this directory."));
        },
    }
}

} // verus!
