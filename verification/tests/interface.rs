use repolyze::analytics::TrendsData;
use repolyze::git::branches::{BranchInfo, DeleteResult};
use repolyze::model::{
    ActivitySummary, ComparisonReport, ComparisonSummary, ContributionSummary, ContributorStats, PartialFailure,
    RepositoryAnalysis, RepositoryTarget, SizeMetrics,
};
use repolyze::settings::Settings;
use repolyze::store::metadata::{database_metadata_from, DatabaseMetadata, TableRowCount};
use repolyze::tui::app::{AnalyzeView, AppAction, AppState, BranchProgress, Screen};
use repolyze::tui::completion::{analysis_view_text, apply_analysis_completion, contributor_choices, AnalysisCompletion};
use repolyze::tui::metadata::{format_file_size, metadata_text};
use repolyze::tui::tasks::{
    apply_branch_listing, begin_branch_listing, begin_export, combine_branch_listings, export_file_name, export_status,
    record_deletion,
};

fn contributor(name: &str, email: &str, commits: u64) -> ContributorStats {
    ContributorStats {
        name: name.to_string(),
        email: email.to_string(),
        commits,
        lines_added: commits,
        lines_deleted: 0,
        net_lines: commits as i64,
        files_touched: 1,
        file_extensions: vec![],
        active_days: 1,
        first_commit: "2025-01-01".to_string(),
        last_commit: "2025-01-02".to_string(),
    }
}

fn repo(name: &str, contributors: Vec<ContributorStats>) -> RepositoryAnalysis {
    let total = contributors.iter().map(|c| c.commits).sum();
    RepositoryAnalysis {
        repository: RepositoryTarget { root: format!("/tmp/{name}") },
        contributions: ContributionSummary { contributors, activity_by_contributor: vec![], total_commits: total },
        activity: ActivitySummary::default(),
        size: SizeMetrics::default(),
    }
}

fn report(repos: Vec<RepositoryAnalysis>, failures: Vec<PartialFailure>) -> ComparisonReport {
    ComparisonReport {
        repositories: repos,
        summary: ComparisonSummary { total_contributors: 0, total_commits: 0, total_lines_changed: 0, total_files: 0 },
        failures,
        trends: TrendsData {
            reference_date: String::new(),
            last_30d_commits: 0,
            prev_30d_commits: 0,
            last_90d_commits: 0,
            prev_90d_commits: 0,
        },
    }
}

fn completion(r: ComparisonReport, failure_count: usize, error: Option<&str>) -> AnalysisCompletion {
    AnalysisCompletion {
        report: r,
        table_text: "table".to_string(),
        heatmap_data: None,
        failure_count,
        error_message: error.map(|e| e.to_string()),
        elapsed: 1500,
    }
}

#[test]
fn execute_pending_action_handles_store_open_failure() {
    let mut app = AppState::new();
    app.pending_action = Some(AppAction::StartAnalyze { paths: vec!["/tmp/repo".to_string()], view: AnalyzeView::All });
    let action = app.take_action();
    assert!(action.is_some());
    app.is_loading = true;
    let c = completion(report(vec![], vec![]), 0, Some("Analysis failed: failed to open database: boom"));
    apply_analysis_completion(&mut app, c, &Settings::default());
    assert!(!app.is_loading);
    assert!(app.pending_action.is_none());
    assert_eq!(app.status_message, "Analysis failed: failed to open database: boom");
    assert!(app.analysis_result.is_none());
    assert!(app.analysis_table.is_none());
}

#[test]
fn apply_analysis_completion_counts_failures_and_keeps_the_table() {
    let mut app = AppState::new();
    app.is_loading = true;
    let failure = PartialFailure { path: "/tmp/bad".to_string(), reason: "not a git repository".to_string() };
    let c = completion(report(vec![repo("a", vec![contributor("Alice", "alice@x.com", 2)])], vec![failure]), 2, None);
    apply_analysis_completion(&mut app, c, &Settings::default());
    assert!(!app.is_loading);
    assert_eq!(app.analysis_elapsed, 1500);
    assert_eq!(app.analysis_table.as_deref(), Some("table"));
    assert_eq!(app.status_message, "Analysis complete with 2 error(s)");
    assert_eq!(app.errors.len(), 1);
    assert_eq!(app.active_screen, Screen::Home);
}

#[test]
fn apply_analysis_completion_for_effort_view_lists_contributors() {
    let mut app = AppState::new();
    app.selected_analyze_view = AnalyzeView::UserEffort;
    app.contributor_selected = 3;
    let repos = vec![
        repo("a", vec![contributor("Bob", "bob@x.com", 1), contributor("Alice", "Alice@X.com", 2)]),
        repo("b", vec![contributor("B. Ob", "BOB@x.com", 4), contributor("Carol", "carol@x.com", 2)]),
    ];
    apply_analysis_completion(&mut app, completion(report(repos, vec![]), 0, None), &Settings::default());
    assert_eq!(app.status_message, "Analysis complete");
    assert_eq!(app.active_screen, Screen::UserSelect);
    assert_eq!(app.contributor_selected, 0);
    assert_eq!(
        app.contributor_list,
        vec![
            ("bob@x.com".to_string(), "Bob".to_string()),
            ("alice@x.com".to_string(), "Alice".to_string()),
            ("carol@x.com".to_string(), "Carol".to_string()),
        ]
    );
}

#[test]
fn contributor_choices_use_configured_names_as_keys() {
    let repos = vec![repo("a", vec![contributor("Bob", "bob@x.com", 1), contributor("Robert", "rob@x.com", 1)])];
    let settings = Settings::from_users(vec![(
        "Robert".to_string(),
        vec!["bob@x.com".to_string(), "rob@x.com".to_string()],
    )]);
    let choices = contributor_choices(&repos, &settings);
    assert_eq!(choices, vec![("Robert".to_string(), "Bob".to_string())]);
}

#[test]
fn analysis_view_text_of_each_view() {
    let repos = vec![
        repo("a", vec![contributor("Alice", "alice@x.com", 2)]),
        repo("b", vec![contributor("Bob", "bob@x.com", 1)]),
    ];
    let s = Settings::default();
    let (t, h) = analysis_view_text(&repos, AnalyzeView::Contribution, &s, "2025-06-15");
    assert!(t.contains("alice@x.com") && h.is_none());
    let (t, h) = analysis_view_text(&repos, AnalyzeView::Activity, &s, "2025-06-15");
    assert!(t.contains("Legend:") && h.is_none());
    let (t, h) = analysis_view_text(&repos, AnalyzeView::ActivityHeatmap, &s, "2025-06-15");
    assert!(t.is_empty());
    assert_eq!(h.unwrap().end_date, "2025-06-15");
    let (t, h) = analysis_view_text(&repos, AnalyzeView::UserEffort, &s, "2025-06-15");
    assert!(t.is_empty() && h.is_none());
    let (t, h) = analysis_view_text(&repos, AnalyzeView::All, &s, "2025-06-15");
    assert!(t.starts_with("#1 Users contribution\n\n"));
    assert!(t.contains("\n\n#2 Most active days and hours\n\n"));
    assert!(t.contains("\n\n#4 Compare repositories\n\n"));
    assert!(h.is_some());
}

fn branch(name: &str) -> BranchInfo {
    BranchInfo { name: name.to_string(), has_local: true, has_remote: false, last_activity: None }
}

#[test]
fn begin_branch_listing_needs_selected_repositories() {
    let mut app = AppState::new();
    assert!(!begin_branch_listing(&mut app));
    assert_eq!(app.git_tools.error.as_deref(), Some("No repositories selected"));
    app.git_tools.selected_repos.push("/tmp/r".to_string());
    app.spinner_frame = 5;
    assert!(begin_branch_listing(&mut app));
    assert!(app.is_loading);
    assert_eq!(app.spinner_frame, 0);
}

#[test]
fn combine_branch_listings_joins_errors_only_without_branches() {
    let r = combine_branch_listings(vec![Err("a failed".to_string()), Err("b failed".to_string())]);
    assert_eq!(r.err().unwrap(), "a failed; b failed");
    let r = combine_branch_listings(vec![Err("a failed".to_string()), Ok(vec![branch("x"), branch("y")])]);
    let names: Vec<String> = r.unwrap().into_iter().map(|b| b.name).collect();
    assert_eq!(names, vec!["x".to_string(), "y".to_string()]);
    assert!(combine_branch_listings(vec![]).unwrap().is_empty());
}

#[test]
fn apply_branch_listing_shows_branches_or_error() {
    let mut app = AppState::new();
    app.is_loading = true;
    apply_branch_listing(&mut app, Ok(vec![branch("x")]));
    assert!(!app.is_loading);
    assert_eq!(app.active_screen, Screen::GitToolsBranchList);
    assert_eq!(app.git_tools.branches.len(), 1);
    let mut app = AppState::new();
    apply_branch_listing(&mut app, Err("boom".to_string()));
    assert_eq!(app.git_tools.error.as_deref(), Some("boom"));
    assert_eq!(app.active_screen, Screen::Home);
}

#[test]
fn record_deletion_marks_rows_and_finishes_after_the_last() {
    let mut app = AppState::new();
    app.git_tools.progress = vec![
        BranchProgress { name: "x".to_string(), local_ok: None, remote_ok: None, processed: false },
        BranchProgress { name: "y".to_string(), local_ok: None, remote_ok: None, processed: false },
    ];
    let result = DeleteResult { branch: "x".to_string(), local_ok: Some(true), remote_ok: None, error: None };
    record_deletion(&mut app.git_tools, 0, &result);
    assert!(app.git_tools.progress[0].processed);
    assert_eq!(app.git_tools.progress[0].local_ok, Some(true));
    assert_eq!(app.git_tools.current_index, 1);
    assert!(!app.git_tools.done);
    let result = DeleteResult { branch: "y".to_string(), local_ok: Some(false), remote_ok: None, error: Some("e".to_string()) };
    record_deletion(&mut app.git_tools, 1, &result);
    assert!(app.git_tools.done);
    assert_eq!(app.git_tools.progress[1].local_ok, Some(false));
}

#[test]
fn export_markdown_without_result_sets_error_message() {
    let mut app = AppState::new();
    assert!(!begin_export(&mut app));
    assert_eq!(app.status_message, "No report to export");
}

#[test]
fn export_file_name_and_status() {
    assert_eq!(export_file_name("2025-06-15", 3_661), "repolyze-report-2025-06-15-010101.md");
    assert_eq!(export_file_name("2025-06-15", 86_400 + 59), "repolyze-report-2025-06-15-000059.md");
    assert_eq!(export_status("/tmp/r.md", Ok(())), "Exported to /tmp/r.md");
    assert_eq!(export_status("/tmp/r.md", Err("denied".to_string())), "Export failed: denied");
}

#[test]
fn format_file_size_picks_the_unit() {
    assert_eq!(format_file_size(512), "512 B");
    assert_eq!(format_file_size(1024), "1.0 KB");
    assert_eq!(format_file_size(1536), "1.5 KB");
    assert_eq!(format_file_size(3 * 1024 * 1024 + 100 * 1024), "3.1 MB");
    // 1.25 KB rounds half to even
    assert_eq!(format_file_size(1280), "1.2 KB");
}

#[test]
fn database_metadata_from_skips_internal_tables_and_sorts() {
    let meta = database_metadata_from(vec![
        ("sqlite_sequence".to_string(), 9),
        ("repositories".to_string(), 2),
        ("contributors".to_string(), 2),
        ("commits".to_string(), 5),
    ]);
    let names: Vec<&str> = meta.tables.iter().map(|t| t.table_name.as_str()).collect();
    assert_eq!(names, vec!["commits", "contributors", "repositories"]);
    assert_eq!(meta.total_rows, 9);
}

#[test]
fn load_metadata_populates_metadata_text() {
    let meta = DatabaseMetadata {
        tables: vec![
            TableRowCount { table_name: "repositories".to_string(), record_count: 3 },
            TableRowCount { table_name: "contributors".to_string(), record_count: 1 },
        ],
        total_rows: 4,
    };
    let text = metadata_text("/tmp/db.sqlite", 2048, &meta);
    assert!(text.starts_with("Database:  /tmp/db.sqlite\nSize:      2.0 KB (2048 bytes)\n\n"));
    assert!(text.contains("table"));
    assert!(text.contains("records"));
    assert!(text.contains("repositories"));
    assert!(text.contains("75.0%"));
    assert!(text.contains("25.0%"));
    assert!(text.contains("Total"));
    assert!(text.contains("100.0%"));
}
