use repolyze::git::branches::BranchInfo;
use repolyze::tui::app::{AppState, BranchProgress, GitToolsMode, WorkspaceInfo};
use repolyze::tui::screens::{
    analyze_menu_lines, branch_list_lines, help_lines, hints_line, home_lines, metadata_lines,
    progress_lines, user_select_lines, Segment, Tint,
};

fn texts(line: &[Segment]) -> String {
    line.iter().map(|s| s.text.as_str()).collect()
}

fn all_text(lines: &[Vec<Segment>]) -> Vec<String> {
    lines.iter().map(|l| texts(l)).collect()
}

#[test]
fn hints_line_separates_hints_with_a_bar() {
    let line = hints_line(&[("Esc", "Home"), ("Q", "Quit")]);
    assert_eq!(texts(&line), " Esc Home  \u{2502}  Q Quit");
    assert_eq!(line.len(), 6);
    assert_eq!(line[1].tint, Tint::Yellow);
    assert_eq!(line[2].tint, Tint::DarkGray);
    assert_eq!(line[3].tint, Tint::DarkGray);
}

#[test]
fn help_screen_lists_bindings_and_ends_with_hints() {
    let lines = help_lines();
    let t = all_text(&lines);
    assert_eq!(t[0], " Help");
    assert_eq!(lines[0][0].tint, Tint::Bold);
    assert!(t.contains(&"   e         Export report as Markdown".to_string()));
    assert_eq!(t.last().unwrap(), " Esc Home  \u{2502}  Q Quit");
    assert_eq!(lines.len(), 22);
}

#[test]
fn home_screen_marks_the_selected_item_and_shows_version() {
    let app = AppState::new();
    let lines = home_lines(&app.menu_items, 1, "1.2.3");
    let t = all_text(&lines);
    assert_eq!(t[0], "");
    assert_eq!(t[7], "  Know your code better.");
    assert_eq!(t[10], "  v1.2.3  \u{00a9} maximgorbatyuk");
    assert_eq!(t[13], "  1. Analyze     Analyze one or more repositories");
    assert_eq!(t[14], "\u{27a4} 2. Git Tools   Git repository maintenance tools");
    assert_eq!(lines[14][0].tint, Tint::YellowBold);
    assert_eq!(lines[13][0].tint, Tint::Plain);
}

#[test]
fn metadata_screen_indents_text_or_shows_loading() {
    let loading = all_text(&metadata_lines(&None));
    assert_eq!(loading[2], " Loading...");
    let ready = all_text(&metadata_lines(&Some("a\nb\n".to_string())));
    assert_eq!(ready[2], " a");
    assert_eq!(ready[3], " b");
    assert_eq!(ready.len(), 6);
}

#[test]
fn analyze_menu_describes_the_workspace() {
    let mut app = AppState::new();
    app.workspace_info = Some(WorkspaceInfo { folder: "/w".to_string(), is_single_repo: false, repo_count: 3 });
    app.analyze_menu_selected = 8;
    let t = all_text(&analyze_menu_lines(&app));
    assert_eq!(t[2], "   Folder:  /w");
    assert_eq!(t[3], "   Mode:    Multi-repository (3 repos)");
    assert_eq!(t[5], "  1. Full report");
    assert_eq!(t[13], "\u{27a4} 9. Compare repositories");
    app.workspace_info = Some(WorkspaceInfo { folder: "/w".to_string(), is_single_repo: true, repo_count: 1 });
    let single = all_text(&analyze_menu_lines(&app));
    assert_eq!(single[3], "   Mode:    Single repository");
    assert!(!single.iter().any(|l| l.contains("Compare repositories")));
}

#[test]
fn user_select_lists_matches_or_says_none_match() {
    let mut app = AppState::new();
    app.contributor_list = vec![("a@x.com".to_string(), "Alice".to_string())];
    let t = all_text(&user_select_lines(&app));
    assert_eq!(t[2], " Filter: _");
    assert_eq!(t[4], "\u{27a4} 1. a@x.com (Alice)");
    app.contributor_filter = "zzz".to_string();
    let none = all_text(&user_select_lines(&app));
    assert_eq!(none[4], " No contributors match the filter.");
}

fn progress(name: &str, local: Option<bool>, remote: Option<bool>, processed: bool) -> BranchProgress {
    BranchProgress { name: name.to_string(), local_ok: local, remote_ok: remote, processed }
}

#[test]
fn progress_screen_counts_and_marks_each_branch() {
    let mut app = AppState::new();
    app.git_tools.progress = vec![
        progress("a", Some(true), None, true),
        progress("b", Some(false), Some(true), true),
        progress("c", None, None, false),
        progress("d", None, None, false),
    ];
    app.git_tools.current_index = 2;
    let lines = progress_lines(&app);
    let t = all_text(&lines);
    assert_eq!(t[2], " Removed 2/4");
    assert_eq!(t[3], " \u{2801} Deleting...");
    assert_eq!(t[5], "   \u{2713} a  (local)");
    assert_eq!(lines[5][0].tint, Tint::Green);
    assert_eq!(t[6], "   \u{2717} b  (local failed, remote)");
    assert_eq!(lines[6][0].tint, Tint::Red);
    assert_eq!(t[7], "   \u{2801} c");
    assert_eq!(t[8], "   \u{2022} d");
    app.git_tools.done = true;
    let done = all_text(&progress_lines(&app));
    assert_eq!(done[2], " Done. 1/4 branch(es) deleted successfully.");
    assert_eq!(done[4], "   \u{2713} a  (local)");
}

#[test]
fn branch_list_shows_tags_and_protected_branches() {
    let mut app = AppState::new();
    app.git_tools.mode = Some(GitToolsMode::StaleBranches);
    let empty = all_text(&branch_list_lines(&app));
    assert_eq!(empty[0], " Git Tools \u{2014} Stale Branches");
    assert_eq!(empty[2], " No branches to remove.");
    app.git_tools.branches = vec![
        BranchInfo { name: "f".to_string(), has_local: true, has_remote: true, last_activity: Some("2020-01-01".to_string()) },
        BranchInfo { name: "g".to_string(), has_local: false, has_remote: true, last_activity: None },
    ];
    app.git_tools.protected_branches = vec![("repo".to_string(), "main".to_string())];
    let t = all_text(&branch_list_lines(&app));
    assert_eq!(t[4], " Protected branches (will not be touched):");
    assert_eq!(t[5], "   main");
    assert_eq!(t[7], " The following 2 branch(es) will be deleted:");
    assert_eq!(t[9], "   f  (local, remote, 2020-01-01)");
    assert_eq!(t[10], "   g  (remote)");
}

use repolyze::analytics::TimelineData;
use repolyze::model::HeatmapData;
use repolyze::tui::app::AnalyzeView;
use repolyze::tui::screens::{analyze_text_lines, bar_chart_lines, heat_tint_exec, heatmap_lines, timeline_lines};

fn any_cyan(lines: &[Vec<Segment>]) -> bool {
    lines.iter().any(|l| l.iter().any(|s| s.tint == Tint::Cyan))
}

#[test]
fn bar_chart_lines_draws_cyan_bars_values_and_labels() {
    let bars = vec![("A".to_string(), 1u64), ("B".to_string(), 10u64)];
    let lines = bar_chart_lines(&bars, 80);
    assert_eq!(lines.len(), 10);
    assert!(any_cyan(&lines));
    assert!(all_text(&lines).iter().any(|l| l.contains('\u{2588}')));
    assert!(texts(&lines[0]).contains('\u{2585}'));
    assert!(texts(&lines[8]).contains("10"));
    assert!(texts(&lines[9]).contains('A'));
    assert!(lines.iter().all(|l| l[0].text == " "));
}

#[test]
fn bar_chart_lines_all_zero_shows_no_data_without_cyan() {
    let bars = vec![("A".to_string(), 0u64), ("B".to_string(), 0u64)];
    let lines = bar_chart_lines(&bars, 80);
    assert_eq!(all_text(&lines), vec![" A B".to_string(), " (no data)".to_string()]);
    assert!(!any_cyan(&lines));
}

#[test]
fn heat_tint_follows_quarters_of_the_maximum() {
    assert_eq!(heat_tint_exec(0, 8), Tint::DarkGray);
    assert_eq!(heat_tint_exec(2, 8), Tint::Teal);
    assert_eq!(heat_tint_exec(4, 8), Tint::Cyan);
    assert_eq!(heat_tint_exec(6, 8), Tint::LightCyan);
    assert_eq!(heat_tint_exec(7, 8), Tint::Yellow);
    assert_eq!(heat_tint_exec(3, 0), Tint::DarkGray);
}

#[test]
fn heatmap_lines_lay_out_period_months_rows_and_legend() {
    let mut grid = vec![vec![0u32; 2]; 7];
    grid[0][1] = 8;
    let data = HeatmapData {
        start_date: "2025-01-06".to_string(),
        end_date: "2025-01-19".to_string(),
        grid,
        week_count: 2,
        max_count: 8,
        month_labels: vec![(1, "Jan".to_string())],
    };
    let lines = heatmap_lines(&data);
    let t = all_text(&lines);
    assert_eq!(lines.len(), 12);
    assert_eq!(t[0], "      2025-01-06 .. 2025-01-19");
    assert_eq!(t[2], "       Jan");
    assert_eq!(t[3], " Mon \u{25a0} \u{25a0} ");
    assert_eq!(lines[3][2].tint, Tint::Yellow);
    assert_eq!(lines[3][1].tint, Tint::DarkGray);
    assert_eq!(t[4], "     \u{25a0} \u{25a0} ");
    assert_eq!(t[11], "      \u{25a0} 0  \u{25a0} 1-2  \u{25a0} 3-4  \u{25a0} 5-6  \u{25a0} 7-8");
}

#[test]
fn timeline_lines_without_points_say_so() {
    let data = TimelineData { title: "T".to_string(), points: vec![], start_date: String::new(), end_date: String::new() };
    assert_eq!(all_text(&timeline_lines(&data, 40)), vec![" No commit data available.".to_string()]);
}

#[test]
fn timeline_lines_scale_to_the_busiest_week() {
    let points: Vec<(String, u32)> = (0..14).map(|i| (format!("d{i:02}"), if i < 7 { 1 } else { 2 })).collect();
    let data = TimelineData { title: "T".to_string(), points, start_date: String::new(), end_date: String::new() };
    let lines = timeline_lines(&data, 6);
    let t = all_text(&lines);
    assert_eq!(lines.len(), 5);
    assert_eq!(t[0], "   \u{2588}\u{2588}");
    assert_eq!(t[2], " \u{2588}\u{2588}\u{2588}\u{2588}");
    assert_eq!(t[3], " d00d07");
    assert_eq!(t[4], " \u{2581} = 0  \u{2588} = 14 commits/week");
}

#[test]
fn analyze_text_lines_show_progress_results_or_nothing() {
    let mut app = AppState::new();
    app.selected_analyze_view = AnalyzeView::Activity;
    let none = all_text(&analyze_text_lines(&app, 80));
    assert_eq!(none[0], " Analyze \u{2014} Most active days and hours");
    assert_eq!(none[2], " No results yet.");
    assert_eq!(none.last().unwrap(), " \u{2191}\u{2193} Scroll  \u{2502}  Esc Home  \u{2502}  Q Quit");
    app.is_loading = true;
    app.progress_log = vec!["fetching".to_string()];
    let loading = all_text(&analyze_text_lines(&app, 80));
    assert_eq!(loading[2], " \u{2801} Analyzing...");
    assert_eq!(loading[3], "   fetching");
    app.is_loading = false;
    app.analysis_table = Some("| a |\n| b |".to_string());
    app.status_message = "saved".to_string();
    let table = all_text(&analyze_text_lines(&app, 80));
    assert_eq!(table[2], " | a |");
    assert_eq!(table[3], " | b |");
    assert_eq!(table[5], " saved");
}

use repolyze::tui::screens::{git_tools_input_lines, git_tools_menu_lines, repo_select_lines};

#[test]
fn git_tools_menu_pads_descriptions_and_names_active_repos() {
    let mut app = AppState::new();
    app.git_tools.repos = vec!["/w/a".to_string(), "/w/b".to_string()];
    app.git_tools.selected_repos = vec!["/w/a".to_string(), "/w/b".to_string()];
    let t = all_text(&git_tools_menu_lines(&app));
    assert_eq!(t[2], "   Repos:  2 repositories");
    assert_eq!(t[3], "   Active: a, b");
    assert_eq!(t[5], "\u{27a4} 1. Remove merged branches     Delete branches already merged into a base branch");
    assert_eq!(t[6], "  2. Remove stale branches        Delete branches with no activity for N days");
    assert_eq!(t[8], " Esc Home to change repositories");
    app.git_tools.workspace_error = Some("no repos".to_string());
    let err = git_tools_menu_lines(&app);
    assert_eq!(texts(&err[2]), " no repos");
    assert_eq!(err[2][0].tint, Tint::Red);
}

#[test]
fn repo_select_shows_checkboxes() {
    let mut app = AppState::new();
    app.git_tools.repos = vec!["/w/a".to_string(), "/w/b".to_string()];
    app.git_tools.repo_checked = vec![true, false];
    app.git_tools.repo_select_idx = 2;
    let t = all_text(&repo_select_lines(&app));
    assert_eq!(t[2], "  [ ] 0. Select all");
    assert_eq!(t[3], "  [x] 1. a  (/w/a)");
    assert_eq!(t[4], "\u{27a4} [ ] 2. b  (/w/b)");
}

#[test]
fn git_tools_input_prompts_or_reports_error() {
    let mut app = AppState::new();
    app.git_tools.mode = Some(GitToolsMode::StaleBranches);
    app.git_tools.selected_repos = vec!["/w/a".to_string()];
    app.git_tools.input = "30".to_string();
    let t = all_text(&git_tools_input_lines(&app));
    assert_eq!(t[0], " Git Tools \u{2014} Remove Stale Branches");
    assert_eq!(t[2], "   Repo:  a");
    assert_eq!(t[4], " Enter number of days (default: 90):");
    assert_eq!(t[6], " > 30_");
    app.git_tools.error = Some("bad".to_string());
    let e = all_text(&git_tools_input_lines(&app));
    assert_eq!(e[4], " Error: bad");
}
