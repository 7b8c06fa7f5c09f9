use repolyze::analytics::TrendsData;
use repolyze::git::branches::BranchInfo;
use repolyze::model::{ComparisonReport, ComparisonSummary, PartialFailure};
use repolyze::tui::app::{
    AnalyzeView, AppAction, AppState, GitToolsMode, GitToolsState, MenuItem, Screen,
    WorkspaceInfo, ANALYZE_MENU_ITEMS,
};
use repolyze::tui::event::{handle_key, normalize_to_qwerty, Key};

#[test]
fn menu_item_screen_mapping() {
    assert_eq!(MenuItem::Help.screen(), Screen::Help);
    assert_eq!(MenuItem::Analyze.screen(), Screen::AnalyzeMenu);
    assert_eq!(MenuItem::GitTools.screen(), Screen::GitToolsMenu);
    assert_eq!(MenuItem::Metadata.screen(), Screen::Metadata);
}

#[test]
fn menu_items_have_descriptions() {
    for item in &[
        MenuItem::Analyze,
        MenuItem::GitTools,
        MenuItem::Help,
        MenuItem::Metadata,
    ] {
        assert!(!item.description().is_empty());
    }
}

#[test]
fn menu_item_labels() {
    assert_eq!(MenuItem::GitTools.label(), "Git Tools");
    assert_eq!(MenuItem::Metadata.description(), "Database info and table row counts");
}

#[test]
fn user_effort_menu_item_exists() {
    let found = ANALYZE_MENU_ITEMS
        .iter()
        .any(|(label, view)| *label == "User effort" && *view == AnalyzeView::UserEffort);
    assert!(found);
}

#[test]
fn toggle_repo_toggles_individual() {
    let mut state = GitToolsState::new();
    state.repos = vec!["/a".to_string(), "/b".to_string()];
    state.repo_checked = vec![false, false];
    state.repo_select_idx = 1;
    state.toggle_repo();
    assert_eq!(state.repo_checked, vec![true, false]);
    state.toggle_repo();
    assert_eq!(state.repo_checked, vec![false, false]);
}

#[test]
fn toggle_repo_on_select_all_row() {
    let mut state = GitToolsState::new();
    state.repos = vec!["/a".to_string(), "/b".to_string()];
    state.repo_checked = vec![false, false];
    state.repo_select_idx = 0;
    state.toggle_repo();
    assert_eq!(state.repo_checked, vec![true, true]);
    state.toggle_repo();
    assert_eq!(state.repo_checked, vec![false, false]);
}

#[test]
fn toggle_all_from_mixed_checks_everything() {
    let mut state = GitToolsState::new();
    state.repos = vec!["/a".to_string(), "/b".to_string()];
    state.repo_checked = vec![true, false];
    state.toggle_all_repos();
    assert_eq!(state.repo_checked, vec![true, true]);
    assert!(state.all_repos_checked());
}

#[test]
fn repo_cursor_and_scroll_bounds() {
    let mut state = GitToolsState::new();
    state.repos = vec!["/a".to_string(), "/b".to_string()];
    state.repo_select_up();
    assert_eq!(state.repo_select_idx, 0);
    for _ in 0..5 {
        state.repo_select_down();
    }
    assert_eq!(state.repo_select_idx, 2);
    state.ensure_repo_visible(4);
    assert_eq!(state.scroll, 3);
    state.scroll_down(10, 8);
    assert_eq!(state.scroll, 3);
    state.scroll = 1;
    state.scroll_down(10, 8);
    assert_eq!(state.scroll, 2);
    state.menu_down();
    state.menu_down();
    assert_eq!(state.selected, 1);
    state.menu_up();
    state.menu_up();
    assert_eq!(state.selected, 0);
}

#[test]
fn normalize_russian_layout() {
    assert_eq!(normalize_to_qwerty('й'), 'q');
    assert_eq!(normalize_to_qwerty('ь'), 'm');
    assert_eq!(normalize_to_qwerty('x'), 'x');
}

fn empty_report() -> ComparisonReport {
    ComparisonReport {
        repositories: vec![],
        summary: ComparisonSummary {
            total_contributors: 0,
            total_commits: 0,
            total_lines_changed: 0,
            total_files: 0,
        },
        failures: vec![],
        trends: TrendsData {
            reference_date: String::new(),
            last_30d_commits: 0,
            prev_30d_commits: 0,
            last_90d_commits: 0,
            prev_90d_commits: 0,
        },
    }
}

#[test]
fn starts_on_home_screen() {
    let app = AppState::new();
    assert_eq!(app.active_screen, Screen::Home);
    assert_eq!(app.selected, 0);
}

#[test]
fn starts_with_all_menu_items() {
    let app = AppState::new();
    assert_eq!(
        app.menu_items,
        vec![
            MenuItem::Analyze,
            MenuItem::GitTools,
            MenuItem::Help,
            MenuItem::Metadata,
        ]
    );
}

#[test]
fn navigate_down_and_activate_analyze() {
    let mut app = AppState::new();
    app.activate_selected();
    assert_eq!(app.active_screen, Screen::AnalyzeMenu);
}

#[test]
fn navigate_to_git_tools() {
    let mut app = AppState::new();
    app.move_down();
    assert_eq!(app.selected, 1);
    app.activate_selected();
    assert_eq!(app.active_screen, Screen::GitToolsMenu);
    assert_eq!(app.pending_action, Some(AppAction::ProbeGitToolsWorkspace));
}

#[test]
fn navigate_to_help() {
    let mut app = AppState::new();
    app.move_down();
    app.move_down();
    assert_eq!(app.selected, 2);
    app.activate_selected();
    assert_eq!(app.active_screen, Screen::Help);
}

#[test]
fn navigate_to_metadata() {
    let mut app = AppState::new();
    app.move_down();
    app.move_down();
    app.move_down();
    assert_eq!(app.selected, 3);
    app.activate_selected();
    assert_eq!(app.active_screen, Screen::Metadata);
    assert_eq!(app.pending_action, Some(AppAction::LoadMetadata));
}

#[test]
fn move_down_does_not_overflow() {
    let mut app = AppState::new();
    for _ in 0..10 {
        app.move_down();
    }
    assert_eq!(app.selected, 3);
}

#[test]
fn move_up_does_not_underflow() {
    let mut app = AppState::new();
    app.move_up();
    assert_eq!(app.selected, 0);
}

#[test]
fn quit_sets_flag() {
    let mut app = AppState::new();
    app.quit();
    assert!(app.should_quit);
}

#[test]
fn go_home_returns_to_home_screen() {
    let mut app = AppState::new();
    app.activate_selected();
    assert_ne!(app.active_screen, Screen::Home);
    app.go_home();
    assert_eq!(app.active_screen, Screen::Home);
}

#[test]
fn dispatch_analyze_creates_action() {
    let mut app = AppState::new();
    app.input_paths.push("/tmp/repo".to_string());
    app.dispatch_analyze();
    assert_eq!(
        app.pending_action,
        Some(AppAction::StartAnalyze {
            paths: vec!["/tmp/repo".to_string()],
            view: AnalyzeView::All,
        })
    );
}

#[test]
fn dispatch_analyze_ignored_without_paths() {
    let mut app = AppState::new();
    app.dispatch_analyze();
    assert!(app.pending_action.is_none());
}

#[test]
fn take_action_clears_pending() {
    let mut app = AppState::new();
    app.input_paths.push("/tmp/repo".to_string());
    app.dispatch_analyze();
    let action = app.take_action();
    assert!(action.is_some());
    assert!(app.pending_action.is_none());
}

#[test]
fn add_input_path_from_buffer() {
    let mut app = AppState::new();
    app.input_buffer = "/tmp/repo".to_string();
    app.add_input_path();
    assert_eq!(app.input_paths, vec!["/tmp/repo".to_string()]);
    assert!(app.input_buffer.is_empty());
}

#[test]
fn add_empty_input_path_is_ignored() {
    let mut app = AppState::new();
    app.input_buffer = "   ".to_string();
    app.add_input_path();
    assert!(app.input_paths.is_empty());
}

#[test]
fn analyze_menu_opens_before_path_entry() {
    let mut app = AppState::new();
    app.activate_selected();
    assert_eq!(app.active_screen, Screen::AnalyzeMenu);
}

#[test]
fn analyze_contribution_dispatches_immediately() {
    let mut app = AppState::new();
    app.active_screen = Screen::AnalyzeMenu;
    app.analyze_menu_selected = 1;
    app.select_analyze_view();
    assert_eq!(app.active_screen, Screen::Analyze);
    assert_eq!(app.selected_analyze_view, AnalyzeView::Contribution);
    assert_eq!(
        app.pending_action,
        Some(AppAction::StartAnalyze {
            paths: vec![".".to_string()],
            view: AnalyzeView::Contribution,
        })
    );
}

#[test]
fn select_analyze_view_clears_stale_analysis_state() {
    let mut app = AppState::new();
    app.analysis_result = Some(empty_report());
    app.analysis_table = Some("stale".to_string());
    app.input_buffer = "old".to_string();
    app.input_paths.push("/tmp/old".to_string());
    app.analyze_menu_selected = 2;
    app.select_analyze_view();
    assert_eq!(app.active_screen, Screen::Analyze);
    assert!(app.analysis_result.is_none());
    assert!(app.input_buffer.is_empty());
    assert!(app.pending_action.is_some());
}

#[test]
fn filtered_contributors_matches_email_and_name() {
    let mut app = AppState::new();
    app.contributor_list = vec![
        ("alice@example.com".to_string(), "Alice".to_string()),
        ("bob@example.com".to_string(), "Bob".to_string()),
    ];

    app.contributor_filter = "ali".to_string();
    let filtered = app.filtered_contributors();
    assert_eq!(filtered.len(), 1);
    assert_eq!(filtered[0].0, "alice@example.com");

    app.contributor_filter = "Bob".to_string();
    let filtered = app.filtered_contributors();
    assert_eq!(filtered.len(), 1);
    assert_eq!(filtered[0].0, "bob@example.com");

    app.contributor_filter.clear();
    assert_eq!(app.filtered_contributors().len(), 2);
}

#[test]
fn select_contributor_sets_state() {
    let mut app = AppState::new();
    app.contributor_list = vec![
        ("alice@example.com".to_string(), "Alice".to_string()),
        ("bob@example.com".to_string(), "Bob".to_string()),
    ];
    app.active_screen = Screen::UserSelect;
    app.contributor_selected = 1;
    app.select_contributor();

    assert_eq!(app.selected_email, Some("bob@example.com".to_string()));
    assert_eq!(app.active_screen, Screen::Analyze);
    assert_eq!(app.pending_action, Some(AppAction::RenderUserEffort));
}

#[test]
fn git_tools_select_merged_transitions_to_input() {
    let mut app = AppState::new();
    app.active_screen = Screen::GitToolsMenu;
    app.git_tools.repos = vec!["/tmp/repo".to_string()];
    app.git_tools.selected_repos = vec!["/tmp/repo".to_string()];
    app.git_tools.selected = 0;
    app.git_tools_select();
    assert_eq!(app.active_screen, Screen::GitToolsInput);
    assert_eq!(app.git_tools.mode, Some(GitToolsMode::MergedBranches));
    assert!(app.git_tools.input.is_empty());
}

#[test]
fn git_tools_select_stale_prefills_default() {
    let mut app = AppState::new();
    app.active_screen = Screen::GitToolsMenu;
    app.git_tools.repos = vec!["/tmp/repo".to_string()];
    app.git_tools.selected_repos = vec!["/tmp/repo".to_string()];
    app.git_tools.selected = 1;
    app.git_tools_select();
    assert_eq!(app.active_screen, Screen::GitToolsInput);
    assert_eq!(app.git_tools.mode, Some(GitToolsMode::StaleBranches));
    assert_eq!(app.git_tools.input, "90");
}

#[test]
fn git_tools_submit_merged_creates_action() {
    let mut app = AppState::new();
    app.git_tools.mode = Some(GitToolsMode::MergedBranches);
    app.git_tools.input = "main".to_string();
    app.git_tools_submit_input();
    assert_eq!(
        app.pending_action,
        Some(AppAction::ListMergedBranches {
            base_branch: "main".to_string()
        })
    );
}

#[test]
fn git_tools_submit_stale_creates_action() {
    let mut app = AppState::new();
    app.git_tools.mode = Some(GitToolsMode::StaleBranches);
    app.git_tools.input = "60".to_string();
    app.git_tools_submit_input();
    assert_eq!(
        app.pending_action,
        Some(AppAction::ListStaleBranches { days: 60 })
    );
}

#[test]
fn git_tools_submit_empty_merged_is_ignored() {
    let mut app = AppState::new();
    app.git_tools.mode = Some(GitToolsMode::MergedBranches);
    app.git_tools.input = "  ".to_string();
    app.git_tools_submit_input();
    assert!(app.pending_action.is_none());
}

#[test]
fn git_tools_submit_invalid_days_is_ignored() {
    let mut app = AppState::new();
    app.git_tools.mode = Some(GitToolsMode::StaleBranches);
    app.git_tools.input = "abc".to_string();
    app.git_tools_submit_input();
    assert!(app.pending_action.is_none());
}

#[test]
fn git_tools_submit_blank_days_means_ninety_and_zero_is_ignored() {
    let mut app = AppState::new();
    app.git_tools.mode = Some(GitToolsMode::StaleBranches);
    app.git_tools.input = " ".to_string();
    app.git_tools_submit_input();
    assert_eq!(app.pending_action, Some(AppAction::ListStaleBranches { days: 90 }));
    let mut app = AppState::new();
    app.git_tools.mode = Some(GitToolsMode::StaleBranches);
    app.git_tools.input = "0".to_string();
    app.git_tools_submit_input();
    assert!(app.pending_action.is_none());
}

#[test]
fn git_tools_clear_resets_state() {
    let mut app = AppState::new();
    app.git_tools.mode = Some(GitToolsMode::MergedBranches);
    app.git_tools.input = "main".to_string();
    app.git_tools.done = true;
    app.git_tools.repos = vec!["/tmp/repo".to_string()];
    app.git_tools.clear();
    assert!(app.git_tools.mode.is_none());
    assert!(app.git_tools.input.is_empty());
    assert!(!app.git_tools.done);
    assert!(app.git_tools.repos.is_empty());
}

#[test]
fn git_tools_clear_tool_preserves_repos() {
    let mut app = AppState::new();
    app.git_tools.repos = vec!["/tmp/a".to_string(), "/tmp/b".to_string()];
    app.git_tools.selected_repos = vec!["/tmp/a".to_string()];
    app.git_tools.mode = Some(GitToolsMode::MergedBranches);
    app.git_tools.input = "main".to_string();
    app.git_tools.done = true;
    app.git_tools.clear_tool();
    assert!(app.git_tools.mode.is_none());
    assert!(app.git_tools.input.is_empty());
    assert!(!app.git_tools.done);
    assert_eq!(app.git_tools.repos.len(), 2);
    assert_eq!(app.git_tools.selected_repos, vec!["/tmp/a".to_string()]);
}

#[test]
fn git_tools_select_blocked_on_workspace_error() {
    let mut app = AppState::new();
    app.active_screen = Screen::GitToolsMenu;
    app.git_tools.workspace_error = Some("No repos".to_string());
    app.git_tools_select();
    assert_eq!(app.active_screen, Screen::GitToolsMenu);
}

#[test]
fn git_tools_multi_repo_shows_picker() {
    let mut app = AppState::new();
    app.active_screen = Screen::GitToolsMenu;
    app.git_tools.repos = vec!["/tmp/a".to_string(), "/tmp/b".to_string()];
    app.git_tools.selected = 0;
    app.git_tools_select();
    assert_eq!(app.active_screen, Screen::GitToolsRepoSelect);
}

#[test]
fn git_tools_multi_repo_skips_picker_when_repo_already_selected() {
    let mut app = AppState::new();
    app.active_screen = Screen::GitToolsMenu;
    app.git_tools.repos = vec!["/tmp/a".to_string(), "/tmp/b".to_string()];
    app.git_tools.selected_repos = vec!["/tmp/a".to_string()];
    app.git_tools.selected = 0;
    app.git_tools_select();
    assert_eq!(app.active_screen, Screen::GitToolsInput);
}

#[test]
fn git_tools_select_repo_collects_checked_and_transitions() {
    let mut app = AppState::new();
    app.git_tools.repos = vec!["/tmp/a".to_string(), "/tmp/b".to_string()];
    app.git_tools.repo_checked = vec![false, true];
    app.git_tools.mode = Some(GitToolsMode::MergedBranches);
    app.active_screen = Screen::GitToolsRepoSelect;
    app.git_tools_select_repo();
    assert_eq!(app.git_tools.selected_repos, vec!["/tmp/b".to_string()]);
    assert_eq!(app.active_screen, Screen::GitToolsInput);
}

#[test]
fn git_tools_select_repo_does_nothing_when_none_checked() {
    let mut app = AppState::new();
    app.git_tools.repos = vec!["/tmp/a".to_string(), "/tmp/b".to_string()];
    app.git_tools.repo_checked = vec![false, false];
    app.active_screen = Screen::GitToolsRepoSelect;
    app.git_tools_select_repo();
    assert!(app.git_tools.selected_repos.is_empty());
    assert_eq!(app.active_screen, Screen::GitToolsRepoSelect);
}

#[test]
fn request_export_ignored_without_analysis_result() {
    let mut app = AppState::new();
    app.request_export();
    assert!(app.pending_action.is_none());
}

#[test]
fn request_export_ignored_while_loading() {
    let mut app = AppState::new();
    app.analysis_result = Some(empty_report());
    app.is_loading = true;
    app.request_export();
    assert!(app.pending_action.is_none());
}

#[test]
fn request_export_sets_pending_action() {
    let mut app = AppState::new();
    app.analysis_result = Some(empty_report());
    app.request_export();
    assert_eq!(app.pending_action, Some(AppAction::ExportMarkdown));
}

#[test]
fn analyze_menu_length_depends_on_workspace() {
    let mut app = AppState::new();
    assert_eq!(app.effective_menu_len(), 8);
    for _ in 0..20 {
        app.analyze_menu_down();
    }
    assert_eq!(app.analyze_menu_selected, 7);
    app.workspace_info = Some(WorkspaceInfo {
        folder: "ws".to_string(),
        is_single_repo: false,
        repo_count: 3,
    });
    assert_eq!(app.effective_menu_len(), 9);
    app.analyze_menu_down();
    assert_eq!(app.analyze_menu_selected, 8);
    app.analyze_menu_up();
    assert_eq!(app.analyze_menu_selected, 7);
}

#[test]
fn confirm_delete_builds_progress_rows() {
    let mut app = AppState::new();
    app.git_tools.branches = vec![
        BranchInfo { name: "a".to_string(), has_local: true, has_remote: false, last_activity: None },
        BranchInfo { name: "b".to_string(), has_local: false, has_remote: true, last_activity: None },
    ];
    app.git_tools.scroll = 5;
    app.git_tools_confirm_delete();
    assert_eq!(app.active_screen, Screen::GitToolsProgress);
    assert_eq!(app.pending_action, Some(AppAction::DeleteBranches));
    assert_eq!(app.git_tools.progress.len(), 2);
    assert_eq!(app.git_tools.progress[1].name, "b");
    assert!(!app.git_tools.progress[0].processed);
    assert_eq!(app.git_tools.scroll, 0);
}

#[test]
fn contributor_cursor_scrolls_into_view() {
    let mut app = AppState::new();
    app.contributor_list = (0..10)
        .map(|i| (format!("u{i}@x.com"), format!("U{i}")))
        .collect();
    app.visible_height = 6;
    for _ in 0..3 {
        app.contributor_select_down();
    }
    assert_eq!(app.contributor_selected, 3);
    assert_eq!(app.scroll_offset, 4);
    app.contributor_select_up();
    assert_eq!(app.contributor_selected, 2);
    assert_eq!(app.scroll_offset, 4);
}

#[test]
fn set_result_keeps_failures() {
    let mut app = AppState::new();
    app.input_paths.push("x".to_string());
    let mut report = empty_report();
    report.failures.push(PartialFailure { path: "/bad".to_string(), reason: "nope".to_string() });
    app.set_result(report);
    assert_eq!(app.errors.len(), 1);
    assert_eq!(app.errors[0].reason, "nope");
    assert!(app.input_paths.is_empty());
    assert_eq!(app.status_message, "Analysis complete");
    assert!(app.analysis_result.is_some());
}

#[test]
fn keys_navigate_home_menu() {
    let mut app = AppState::new();
    handle_key(&mut app, Key::Char('j'), false);
    handle_key(&mut app, Key::Char('о'), false);
    assert_eq!(app.selected, 2);
    handle_key(&mut app, Key::Up, false);
    assert_eq!(app.selected, 1);
    handle_key(&mut app, Key::Enter, false);
    assert_eq!(app.active_screen, Screen::GitToolsMenu);
    handle_key(&mut app, Key::Esc, false);
    assert_eq!(app.active_screen, Screen::Home);
    handle_key(&mut app, Key::Char('?'), false);
    assert_eq!(app.active_screen, Screen::Help);
    handle_key(&mut app, Key::Char('й'), false);
    assert!(app.should_quit);
}

#[test]
fn ctrl_c_quits_even_while_typing() {
    let mut app = AppState::new();
    app.active_screen = Screen::UserSelect;
    handle_key(&mut app, Key::Char('q'), false);
    assert!(!app.should_quit);
    assert_eq!(app.contributor_filter, "q");
    handle_key(&mut app, Key::Char('c'), true);
    assert!(app.should_quit);
}

#[test]
fn user_select_filter_editing_resets_cursor() {
    let mut app = AppState::new();
    app.active_screen = Screen::UserSelect;
    app.contributor_selected = 3;
    app.scroll_offset = 2;
    handle_key(&mut app, Key::Char('й'), false);
    assert_eq!(app.contributor_filter, "й");
    assert_eq!(app.contributor_selected, 0);
    assert_eq!(app.scroll_offset, 0);
    handle_key(&mut app, Key::Backspace, false);
    assert_eq!(app.contributor_filter, "");
    handle_key(&mut app, Key::Backspace, false);
    assert_eq!(app.contributor_filter, "");
}

#[test]
fn git_tools_input_keys() {
    let mut app = AppState::new();
    app.active_screen = Screen::GitToolsInput;
    app.git_tools.mode = Some(GitToolsMode::StaleBranches);
    for c in "30".chars() {
        handle_key(&mut app, Key::Char(c), false);
    }
    handle_key(&mut app, Key::Enter, false);
    assert_eq!(app.pending_action, Some(AppAction::ListStaleBranches { days: 30 }));
    app.is_loading = true;
    handle_key(&mut app, Key::Esc, false);
    assert_eq!(app.active_screen, Screen::GitToolsInput);
    app.is_loading = false;
    handle_key(&mut app, Key::Esc, false);
    assert_eq!(app.active_screen, Screen::GitToolsMenu);
    assert!(app.git_tools.input.is_empty());
}

#[test]
fn progress_screen_escape_stops_then_leaves() {
    let mut app = AppState::new();
    app.active_screen = Screen::GitToolsProgress;
    handle_key(&mut app, Key::Esc, false);
    assert!(app.git_tools.done);
    assert_eq!(app.active_screen, Screen::GitToolsProgress);
    handle_key(&mut app, Key::Esc, false);
    assert_eq!(app.active_screen, Screen::GitToolsMenu);
    assert!(!app.git_tools.done);
}

#[test]
fn repo_picker_keys_move_and_toggle_scroll() {
    let mut app = AppState::new();
    app.active_screen = Screen::GitToolsRepoSelect;
    app.git_tools.repos = vec!["/a".to_string(), "/b".to_string(), "/c".to_string()];
    app.git_tools.repo_checked = vec![false, false, false];
    app.visible_height = 4;
    handle_key(&mut app, Key::Down, false);
    handle_key(&mut app, Key::Char('j'), false);
    assert_eq!(app.git_tools.repo_select_idx, 2);
    assert_eq!(app.git_tools.scroll, 3);
    handle_key(&mut app, Key::Enter, false);
    assert_eq!(app.active_screen, Screen::GitToolsRepoSelect);
}
