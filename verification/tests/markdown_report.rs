use repolyze::analytics::TrendsData;
use repolyze::model::{
    ActivitySummary, ComparisonReport, ComparisonSummary, ContributionSummary, ContributorStats, PartialFailure,
    RepositoryAnalysis, RepositoryTarget, SizeMetrics,
};
use repolyze::report::document::heatmap_day_ok_exec;
use repolyze::report::markdown::{render_markdown, render_markdown_on};
use repolyze::settings::Settings;

fn make_analysis(name: &str, commits: u64, files: u64) -> RepositoryAnalysis {
    RepositoryAnalysis {
        repository: RepositoryTarget { root: format!("/tmp/{name}") },
        contributions: ContributionSummary {
            contributors: vec![ContributorStats {
                name: "Alice".to_string(),
                email: "alice@example.com".to_string(),
                commits,
                lines_added: commits * 20,
                lines_deleted: commits * 5,
                net_lines: (commits * 15) as i64,
                files_touched: files,
                file_extensions: vec![],
                active_days: 3,
                first_commit: "2025-01-01".to_string(),
                last_commit: "2025-01-15".to_string(),
            }],
            activity_by_contributor: vec![],
            total_commits: commits,
        },
        activity: ActivitySummary::default(),
        size: SizeMetrics {
            files,
            directories: 2,
            total_bytes: files * 100,
            total_lines: files * 10,
            non_empty_lines: files * 8,
            blank_lines: files * 2,
            by_extension: vec![],
            largest_files: vec![],
        },
    }
}

fn no_trends() -> TrendsData {
    TrendsData {
        reference_date: String::new(),
        last_30d_commits: 0,
        prev_30d_commits: 0,
        last_90d_commits: 0,
        prev_90d_commits: 0,
    }
}

fn make_two_repo_report() -> ComparisonReport {
    ComparisonReport {
        repositories: vec![make_analysis("repo-a", 10, 20), make_analysis("repo-b", 5, 15)],
        summary: ComparisonSummary {
            total_contributors: 1,
            total_commits: 15,
            total_lines_changed: 225,
            total_files: 35,
        },
        failures: vec![],
        trends: no_trends(),
    }
}

fn render(report: &ComparisonReport) -> String {
    render_markdown(report, &Settings::default()).expect("today's date lays out a heatmap")
}

#[test]
fn markdown_report_contains_title() {
    let report = make_two_repo_report();
    let md = render(&report);
    assert!(md.contains("# Repolyze Analysis Report"));
}

#[test]
fn markdown_report_contains_repository_summary() {
    let report = make_two_repo_report();
    let md = render(&report);
    assert!(md.contains("## Repository Summary"));
    assert!(md.contains("repo-a"));
    assert!(md.contains("repo-b"));
}

#[test]
fn markdown_report_contains_contributor_section() {
    let report = make_two_repo_report();
    let md = render(&report);
    assert!(md.contains("## Top Contributors"));
    assert!(md.contains("Alice"));
}

#[test]
fn markdown_report_contains_activity_sections() {
    let report = make_two_repo_report();
    let md = render(&report);
    assert!(md.contains("## Commits by Hour"));
    assert!(md.contains("## Commits by Weekday"));
}

#[test]
fn markdown_report_contains_size_section() {
    let report = make_two_repo_report();
    let md = render(&report);
    assert!(md.contains("## Size Comparison"));
}

#[test]
fn markdown_report_includes_failures_when_present() {
    let mut report = make_two_repo_report();
    report.failures.push(PartialFailure {
        path: "/tmp/bad".to_string(),
        reason: "not a git repository".to_string(),
    });
    let md = render(&report);
    assert!(md.contains("## Failures"));
    assert!(md.contains("not a git repository"));
}

#[test]
fn markdown_report_omits_failures_when_empty() {
    let report = make_two_repo_report();
    let md = render(&report);
    assert!(!md.contains("## Failures"));
}

#[test]
fn markdown_report_aggregates_contributors_by_key_across_repos() {
    let report = make_two_repo_report();
    let md = render(&report);
    // Without settings, the author column shows the git name
    assert!(md.contains("| Alice | 15 | 300 | 75 | 225 |"));
}

#[test]
fn markdown_report_contains_heatmap_section() {
    let report = make_two_repo_report();
    let md = render(&report);
    assert!(md.contains("## Activity Heatmap"));
    assert!(md.contains("Mon"));
    assert!(md.contains("Wed"));
    assert!(md.contains("Fri"));
    assert!(md.contains("Sun"));
    // Legend shows commit-count ranges (test data has max_count=0, so all show "0")
    assert!(md.contains("\u{b7} 0"));
}

#[test]
fn markdown_report_aggregates_activity_across_repos() {
    let mut report = make_two_repo_report();
    report.repositories[0].activity.by_hour[10] = 1;
    report.repositories[0].activity.by_weekday[2] = 1;
    report.repositories[1].activity.by_hour[10] = 2;
    report.repositories[1].activity.by_weekday[2] = 2;

    let md = render(&report);

    let hour_section = md
        .split("## Commits by Hour")
        .nth(1)
        .and_then(|s| s.split("\n## ").next())
        .expect("hour chart section present");
    // 24 bars don't fit at "HH:00" in 80 cols, so labels collapse to "HH".
    assert!(hour_section.contains(" 10 ") || hour_section.contains(" 10\n"));
    // Aggregated value (1 + 2 = 3) appears in the chart's value row.
    assert!(hour_section.contains('3'));
    assert!(md.contains("Wednesday"));
}

#[test]
fn markdown_report_on_a_fixed_day_lists_scope_tables_and_sizes() {
    let report = make_two_repo_report();
    let md = render_markdown_on(&report, &Settings::default(), "2025-06-15");
    assert!(md.starts_with("# Repolyze Analysis Report\n\n## Scope\n\nAnalyzed **2** repositories.\n\n"));
    assert!(md.contains("| repo-a | 20 | 200 | 10 | 1 |\n| repo-b | 15 | 150 | 5 | 1 |\n"));
    assert!(md.contains("| repo-a | 20 | 2 | 2000 | 200 | 100 |\n| repo-b | 15 | 2 | 1500 | 150 | 100 |\n"));
    assert!(md.contains("## Compare Repositories\n\n"));
    assert!(md.contains("Period: 2024-06-10 .. 2025-06-15"));
}

#[test]
fn markdown_report_single_repository_has_no_comparison() {
    let mut report = make_two_repo_report();
    report.repositories.truncate(1);
    let md = render_markdown_on(&report, &Settings::default(), "2025-06-15");
    assert!(md.contains("Analyzed **1** repository.\n\n"));
    assert!(!md.contains("## Compare Repositories"));
}

#[test]
fn markdown_report_ranks_authors_by_commits_and_shows_configured_names() {
    let mut report = make_two_repo_report();
    report.repositories[1].contributions.contributors[0] = ContributorStats {
        name: "Bob".to_string(),
        email: "Bob@Example.com".to_string(),
        commits: 30,
        lines_added: 1,
        lines_deleted: 4,
        net_lines: -3,
        files_touched: 1,
        file_extensions: vec![],
        active_days: 1,
        first_commit: "2025-01-01".to_string(),
        last_commit: "2025-01-02".to_string(),
    };
    let md = render_markdown_on(&report, &Settings::default(), "2025-06-15");
    let bob = md.find("| Bob | 30 | 1 | 4 | -3 |").expect("bob listed with his git name");
    let alice = md.find("| Alice | 10 | 200 | 50 | 150 |").expect("alice listed");
    assert!(bob < alice);

    let settings = Settings::from_users(vec![("Robert".to_string(), vec!["bob@example.com".to_string()])]);
    let md = render_markdown_on(&report, &settings, "2025-06-15");
    assert!(md.contains("| Robert | 30 | 1 | 4 | -3 |"));
}

#[test]
fn markdown_report_rounds_average_file_size_half_to_even() {
    let mut report = make_two_repo_report();
    report.repositories[0].size.files = 4;
    report.repositories[0].size.total_bytes = 10; // 2.5 -> 2
    report.repositories[1].size.files = 2;
    report.repositories[1].size.total_bytes = 7; // 3.5 -> 4
    let md = render_markdown_on(&report, &Settings::default(), "2025-06-15");
    assert!(md.contains("| repo-a | 4 | 2 | 10 | 200 | 2 |"));
    assert!(md.contains("| repo-b | 2 | 2 | 7 | 150 | 4 |"));
}

#[test]
fn heatmap_day_ok_accepts_ordinary_dates() {
    assert!(heatmap_day_ok_exec("2025-06-15"));
    assert!(heatmap_day_ok_exec("not a date"));
}

use repolyze::report::markdown::render_markdown_for_day;

#[test]
fn render_markdown_for_day_is_none_only_where_the_heatmap_cannot_be_laid_out() {
    let report = make_two_repo_report();
    let settings = Settings::default();
    let day = "2025-06-01";
    assert_eq!(
        render_markdown_for_day(&report, &settings, day),
        Some(render_markdown_on(&report, &settings, day))
    );
    let far = "2147483000-06-01";
    assert!(!heatmap_day_ok_exec(far));
    assert!(render_markdown_for_day(&report, &settings, far).is_none());
}
