use repolyze::analytics::{BarChartData, TimelineData};
use repolyze::report::markdown::{
    heatmap_char, iso_week_label, iso_weeks_in_year, render_bar_chart_section,
    render_timeline_section,
};
use repolyze::model::{
    ActivitySummary, ContributionSummary, ContributorStats, RepositoryAnalysis, RepositoryTarget,
    SizeMetrics,
};
use repolyze::report::table::{
    format_duration, format_period_datetime, format_ratio_2dp, render_analysis_header,
    render_users_contribution_table, UsersContributionRow,
};

#[test]
fn render_bar_chart_section_formats_bars() {
    let data = BarChartData {
        title: "Test Chart".to_string(),
        bars: vec![
            ("Mon".to_string(), 10),
            ("Tue".to_string(), 5),
            ("Wed".to_string(), 0),
        ],
    };
    let result = render_bar_chart_section(&data);
    assert!(result.contains("## Test Chart"));
    assert!(result.contains("Mon"));
    assert!(result.contains("Tue"));
    assert!(result.contains("10"));
    assert!(result.contains("5"));
    assert!(result.contains("Wed"));
}

#[test]
fn render_bar_chart_section_without_data_says_so() {
    let data = BarChartData {
        title: "Empty".to_string(),
        bars: vec![("Mon".to_string(), 0), ("Tue".to_string(), 0)],
    };
    let result = render_bar_chart_section(&data);
    assert_eq!(result, "## Empty\n\n```\nMon Tue\n(no data)\n```\n\n");
}

#[test]
fn render_timeline_section_renders_sparkline() {
    let data = TimelineData {
        title: "Commit Timeline".to_string(),
        points: vec![
            ("2025-01-13".to_string(), 3),
            ("2025-01-14".to_string(), 2),
            ("2025-01-20".to_string(), 5),
        ],
        start_date: "2025-01-13".to_string(),
        end_date: "2025-01-20".to_string(),
    };
    let result = render_timeline_section(&data);
    assert!(result.contains("## Commit Timeline"));
    assert!(result.contains('▁') || result.contains('█'));
    assert!(result.contains("commits/week"));
}

#[test]
fn render_timeline_section_empty_data() {
    let data = TimelineData {
        title: "Empty".to_string(),
        points: vec![],
        start_date: String::new(),
        end_date: String::new(),
    };
    assert!(render_timeline_section(&data).is_empty());
}

#[test]
fn iso_week_label_known_dates() {
    assert_eq!(iso_week_label("2025-01-01"), "2025-W01");
    assert_eq!(iso_week_label("2025-01-06"), "2025-W02");
    assert_eq!(iso_week_label("2025-01-13"), "2025-W03");
    assert_eq!(iso_week_label("2025-06-15"), "2025-W24");
}

#[test]
fn iso_week_label_cross_year() {
    assert_eq!(iso_week_label("2024-12-30"), "2025-W01");
    assert_eq!(iso_week_label("2024-12-29"), "2024-W52");
}

#[test]
fn iso_week_label_week_53_and_passthrough() {
    assert_eq!(iso_week_label("2020-12-31"), "2020-W53");
    assert_eq!(iso_week_label("2021-01-01"), "2020-W53");
    assert_eq!(iso_week_label("not a date"), "not a date");
    assert_eq!(iso_weeks_in_year(2020), 53);
    assert_eq!(iso_weeks_in_year(2025), 52);
}

#[test]
fn heatmap_char_levels() {
    assert_eq!(heatmap_char(0, 10), '\u{b7}');
    assert_eq!(heatmap_char(5, 0), '\u{b7}');
    assert_eq!(heatmap_char(2, 8), '\u{2591}');
    assert_eq!(heatmap_char(4, 8), '\u{2592}');
    assert_eq!(heatmap_char(6, 8), '\u{2593}');
    assert_eq!(heatmap_char(8, 8), '\u{2588}');
}

#[test]
fn format_ratio_two_decimals() {
    assert_eq!(format_ratio_2dp(42, 5), "8.40");
    assert_eq!(format_ratio_2dp(5000, 100), "50.00");
    assert_eq!(format_ratio_2dp(1, 3), "0.33");
    assert_eq!(format_ratio_2dp(2, 3), "0.67");
    assert_eq!(format_ratio_2dp(7, 0), "0.00");
}

#[test]
fn render_users_contribution_table_uses_rf8_headers() {
    let rows = vec![UsersContributionRow {
        email: "alice@example.com".to_string(),
        commits: 5,
        lines_modified: 42,
        files_touched: 4,
    }];

    let table = render_users_contribution_table(&rows);

    assert!(table.contains("Email"));
    assert!(table.contains("Commits"));
    assert!(table.contains("Lines Modified"));
    assert!(table.contains("Lines per commit"));
    assert!(table.contains("Files Touched"));
    assert!(!table.contains("Most active week day"));
    assert!(table.contains("alice@example.com"));
    assert!(table.contains("Total"));
    assert!(table.contains("8.40"));
}

#[test]
fn render_users_contribution_table_right_aligns_numbers() {
    let rows = vec![
        UsersContributionRow {
            email: "alice@example.com".to_string(),
            commits: 100,
            lines_modified: 5000,
            files_touched: 20,
        },
        UsersContributionRow {
            email: "bob@example.com".to_string(),
            commits: 5,
            lines_modified: 42,
            files_touched: 4,
        },
    ];

    let table = render_users_contribution_table(&rows);
    assert!(table.contains("Total"));
    assert!(table.contains("105"));
    assert!(table.contains("5042"));
    assert!(!table.contains('|'));
    assert!(table.contains("---"));
}

#[test]
fn render_users_contribution_table_empty() {
    assert_eq!(render_users_contribution_table(&vec![]), "No contributor data available.");
}

fn repo_with(first: &str, last: &str) -> RepositoryAnalysis {
    RepositoryAnalysis {
        repository: RepositoryTarget { root: "/tmp/repo".to_string() },
        contributions: ContributionSummary {
            contributors: vec![ContributorStats {
                name: "Alice".to_string(),
                email: "alice@example.com".to_string(),
                commits: 1,
                lines_added: 1,
                lines_deleted: 0,
                net_lines: 1,
                files_touched: 1,
                file_extensions: vec![],
                active_days: 1,
                first_commit: first.to_string(),
                last_commit: last.to_string(),
            }],
            activity_by_contributor: vec![],
            total_commits: 1,
        },
        activity: ActivitySummary::default(),
        size: SizeMetrics::default(),
    }
}

#[test]
fn render_analysis_header_preserves_full_datetimes_in_period() {
    let repos = vec![repo_with("2025-01-01T09:10:11+00:00", "2025-01-15T10:20:30+00:00")];
    let header = render_analysis_header(&repos, 0, 250);
    assert!(header.contains("2025-01-01 09:10:11"));
    assert!(header.contains("2025-01-15 10:20:30"));
}

#[test]
fn render_analysis_header_exact_text() {
    let repos = vec![
        repo_with("2025-02-01T00:00:00Z", "2025-02-03T00:00:00Z"),
        repo_with("2025-01-01T09:10:11.5-05:00", ""),
    ];
    let header = render_analysis_header(&repos, 75, 4);
    assert_eq!(
        header,
        "Period:    2025-01-01 09:10:11 .. 2025-02-03 00:00:00\nProjects:  2 repositories\nElapsed:   1m 15.004s\n\n"
    );
    assert_eq!(
        render_analysis_header(&vec![], 0, 0),
        "Period:    ? .. ?\nProjects:  0 repositories\nElapsed:   0.000s\n\n"
    );
}

#[test]
fn period_and_duration_formats() {
    assert_eq!(format_period_datetime("2025-01-01"), "2025-01-01");
    assert_eq!(format_period_datetime("2025-01-01T10:20"), "2025-01-01 10:20");
    assert_eq!(format_duration(5, 30), "5.030s");
    assert_eq!(format_duration(60, 0), "1m 0.000s");
}

fn comparison_rows() -> Vec<repolyze::analytics::RepoComparisonRow> {
    let row = |name: &str, total: u64, days: usize, monday: u32, monday_days: usize| repolyze::analytics::RepoComparisonRow {
        name: name.to_string(),
        total_commits: total,
        active_days: days,
        weekday_commits: vec![monday, 0, 0, 0, 0, 0, 0],
        weekday_active_days: vec![monday_days, 0, 0, 0, 0, 0, 0],
    };
    vec![row("repo-a", 3, 2, 3, 2), row("repo-b", 2, 2, 2, 2)]
}

#[test]
fn render_repo_comparison_markdown_ranks_by_commits_per_day() {
    let md = repolyze::report::markdown::render_repo_comparison_markdown(&comparison_rows());
    assert!(md.starts_with(
        "### Most active repositories (commits per active day)\n\n| Repository | Commits | Active days | C/D |\n|---|---|---|---|\n| repo-a | 3 | 2 | 1.50 |\n| repo-b | 2 | 2 | 1.00 |\n\n"
    ));
    assert!(md.contains(
        "### Least active repositories (commits per active day)\n\n| Repository | Commits | Active days | C/D |\n|---|---|---|---|\n| repo-b | 2 | 2 | 1.00 |\n| repo-a | 3 | 2 | 1.50 |\n\n"
    ));
    assert!(md.ends_with("|---|---|---|---|\n| Mon | repo-a (1.50) | repo-b (1.00) |  |\n\n"));
}

#[test]
fn render_repo_comparison_table_lists_both_rankings() {
    let t = repolyze::report::table::render_repo_comparison_table(&comparison_rows());
    let a = t.find("repo-a").unwrap();
    let b = t.find("repo-b").unwrap();
    assert!(a < b);
    assert!(t.contains("1.50"));
    assert!(t.contains("1.00"));
}

#[test]
fn render_user_activity_table_uses_rf9_headers() {
    let rows = vec![repolyze::users::UserActivityRow {
        identifier: "alice@example.com".to_string(),
        most_active_week_day: "Monday".to_string(),
        best_day_commits: 2,
        best_day_active_days: 1,
        commits: 3,
        active_days: 2,
        best_hour_commits: 2,
        best_hour_active_buckets: 1,
        active_hour_buckets: 3,
    }];

    let table = repolyze::report::table::render_user_activity_table(&rows);

    assert!(table.contains("Legend:"));
    assert!(table.contains("C/D (best)"));
    assert!(table.contains("C/H (best)"));
    assert!(table.contains("C/D"));
    assert!(table.contains("C/H"));
    assert!(table.contains("Day"));
    assert!(table.contains("alice@example.com"));
    assert!(!table.contains('|'));
    assert!(table.contains("2.00"));
    assert!(table.contains("1.50"));
    assert!(table.contains("1.00"));
}

#[test]
fn render_empty_table_returns_helpful_message() {
    assert_eq!(render_users_contribution_table(&vec![]), "No contributor data available.");
    assert_eq!(
        repolyze::report::table::render_user_activity_table(&vec![]),
        "No activity data available."
    );
}
