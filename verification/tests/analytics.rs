use repolyze::analytics::{
    build_comparison_report, build_contribution_rows, build_repo_comparison, build_heatmap_data, get_contributor_emails, build_hourly_chart_data, build_overall_trends,
    build_timeline_data, build_timeline_data_since, build_trends_data, build_weekday_chart_data,
    least_active_index, most_active_index, sum_commits_in_window, TrendsData,
};
use repolyze::date_util::{add_days, today_ymd};
use repolyze::model::{
    ActivitySummary, ContributionSummary, ContributorActivityStats, ContributorStats,
    PartialFailure, RepositoryAnalysis, RepositoryTarget, SizeMetrics,
};
use repolyze::settings::Settings;

/// Average commits per day over a window.
fn avg(sum: u64, days: f64) -> f64 {
    sum as f64 / days
}

fn change(last: u64, prev: u64, days: f64) -> Option<f64> {
    if prev > 0 {
        Some((avg(last, days) - avg(prev, days)) / avg(prev, days) * 100.0)
    } else {
        None
    }
}

fn change_30d(t: &TrendsData) -> Option<f64> {
    assert_eq!(t.has_change_30d(), t.prev_30d_commits > 0);
    change(t.last_30d_commits, t.prev_30d_commits, 30.0)
}

fn change_90d(t: &TrendsData) -> Option<f64> {
    assert_eq!(t.has_change_90d(), t.prev_90d_commits > 0);
    change(t.last_90d_commits, t.prev_90d_commits, 90.0)
}

#[test]
fn least_active_index_returns_min_nonzero() {
    let arr = vec![0, 3, 1, 5, 0, 0, 2];
    assert_eq!(least_active_index(&arr), Some(2));
}

#[test]
fn least_active_index_all_zeros() {
    let arr = vec![0u32; 7];
    assert_eq!(least_active_index(&arr), None);
}

#[test]
fn most_active_index_prefers_the_last_of_equal_maxima() {
    assert_eq!(most_active_index(&vec![0, 3, 1, 3, 0]), Some(3));
    assert_eq!(most_active_index(&vec![0, 0, 0]), None);
    assert_eq!(most_active_index(&vec![]), None);
}

#[test]
fn least_active_index_prefers_the_first_of_equal_minima() {
    assert_eq!(least_active_index(&vec![4, 2, 0, 2]), Some(1));
}

#[test]
fn build_trends_data_empty_map() {
    let map: Vec<(String, u32)> = Vec::new();
    let trends = build_trends_data(&map, "2026-04-15");
    assert_eq!(trends.reference_date, "2026-04-15");
    assert_eq!(avg(trends.last_30d_commits, 30.0), 0.0);
    assert_eq!(avg(trends.prev_30d_commits, 30.0), 0.0);
    assert_eq!(avg(trends.last_90d_commits, 90.0), 0.0);
    assert_eq!(avg(trends.prev_90d_commits, 90.0), 0.0);
    assert!(change_30d(&trends).is_none());
    assert!(change_90d(&trends).is_none());
}

#[test]
fn build_trends_data_windows_and_percent_change() {
    // Reference date 2026-04-15.
    // last_30d  = [2026-03-17 .. 2026-04-15] — place 60 commits on 2026-04-10
    // prev_30d  = [2026-02-15 .. 2026-03-16] — place 30 commits on 2026-03-01
    // last_90d  = [2026-01-16 .. 2026-04-15] — includes both above (90 total)
    // prev_90d  = [2025-10-18 .. 2026-01-15] — place 45 commits on 2025-12-01
    let map = vec![
        ("2020-01-01".to_string(), 999u32), // outside all windows — not counted
        ("2025-12-01".to_string(), 45u32),
        ("2026-03-01".to_string(), 30u32),
        ("2026-04-10".to_string(), 60u32),
    ];

    let trends = build_trends_data(&map, "2026-04-15");
    // 30d windows
    assert!((avg(trends.last_30d_commits, 30.0) - 60.0 / 30.0).abs() < 1e-9);
    assert!((avg(trends.prev_30d_commits, 30.0) - 30.0 / 30.0).abs() < 1e-9);
    // (2.0 - 1.0) / 1.0 * 100 = +100.0
    assert!((change_30d(&trends).unwrap() - 100.0).abs() < 1e-9);
    // 90d windows
    assert!((avg(trends.last_90d_commits, 90.0) - (60.0 + 30.0) / 90.0).abs() < 1e-9);
    assert!((avg(trends.prev_90d_commits, 90.0) - 45.0 / 90.0).abs() < 1e-9);
    // (1.0 - 0.5) / 0.5 * 100 = +100.0
    assert!((change_90d(&trends).unwrap() - 100.0).abs() < 1e-9);
}

#[test]
fn build_trends_data_no_prior_activity_returns_none() {
    // Commits only in last_30d window — prev windows are empty
    let map = vec![("2026-04-01".to_string(), 15u32)];
    let trends = build_trends_data(&map, "2026-04-15");
    assert!(avg(trends.last_30d_commits, 30.0) > 0.0);
    assert_eq!(avg(trends.prev_30d_commits, 30.0), 0.0);
    assert!(change_30d(&trends).is_none());
    assert!(change_90d(&trends).is_none());
}

#[test]
fn build_trends_data_invalid_today_returns_default_with_echo() {
    let map = vec![("2026-04-10".to_string(), 100u32)];
    let trends = build_trends_data(&map, "not-a-date");
    assert_eq!(trends.reference_date, "not-a-date");
    assert_eq!(avg(trends.last_30d_commits, 30.0), 0.0);
    assert_eq!(avg(trends.last_90d_commits, 90.0), 0.0);
    assert!(change_30d(&trends).is_none());
    assert!(change_90d(&trends).is_none());
}

#[test]
fn build_trends_data_far_edge_boundaries_are_exclusive() {
    // today-60 falls before prev_30d_start (today-59) → must NOT be counted in prev_30d.
    // today-180 falls before prev_90d_start (today-179) → must NOT be counted in prev_90d.
    let map = vec![
        ("2025-10-17".to_string(), 900u32), // 2026-04-15 minus 180 days
        ("2026-02-14".to_string(), 500u32), // 2026-04-15 minus 60 days
    ];
    let trends = build_trends_data(&map, "2026-04-15");
    assert_eq!(avg(trends.prev_30d_commits, 30.0), 0.0);
    assert_eq!(avg(trends.prev_90d_commits, 90.0), 0.0);
    assert!(change_30d(&trends).is_none());
    assert!(change_90d(&trends).is_none());
}

#[test]
fn build_trends_data_boundary_dates_are_inclusive() {
    // Exactly 29 days ago is the earliest date still in last_30d
    let map = vec![
        ("2026-03-16".to_string(), 60u32), // today-30 is the latest date in prev_30d
        ("2026-03-17".to_string(), 30u32), // today-29
        ("2026-04-15".to_string(), 0u32),  // today
    ];

    let trends = build_trends_data(&map, "2026-04-15");
    assert!((avg(trends.last_30d_commits, 30.0) - 1.0).abs() < 1e-9); // 30 / 30
    assert!((avg(trends.prev_30d_commits, 30.0) - 2.0).abs() < 1e-9); // 60 / 30
}

#[test]
fn sum_commits_in_window_is_inclusive_at_both_ends() {
    let map = vec![
        ("2026-01-01".to_string(), 1u32),
        ("2026-01-02".to_string(), 2u32),
        ("2026-01-03".to_string(), 4u32),
    ];
    assert_eq!(sum_commits_in_window(&map, "2026-01-01", "2026-01-02"), 3);
    assert_eq!(sum_commits_in_window(&map, "2026-01-02", "2026-01-02"), 2);
    assert_eq!(sum_commits_in_window(&map, "2026-01-04", "2026-02-01"), 0);
}

fn no_settings() -> Settings {
    Settings::default()
}

fn make_repo(
    name: &str,
    contributors: Vec<ContributorStats>,
    activity: Vec<ContributorActivityStats>,
    total_commits: u64,
) -> RepositoryAnalysis {
    RepositoryAnalysis {
        repository: RepositoryTarget { root: format!("/tmp/{name}") },
        contributions: ContributionSummary {
            contributors,
            activity_by_contributor: activity,
            total_commits,
        },
        activity: ActivitySummary::default(),
        size: SizeMetrics::default(),
    }
}

fn make_contributor(email: &str, commits: u64, added: u64, deleted: u64, files: u64) -> ContributorStats {
    ContributorStats {
        name: email.split('@').next().unwrap().to_string(),
        email: email.to_string(),
        commits,
        lines_added: added,
        lines_deleted: deleted,
        net_lines: added as i64 - deleted as i64,
        files_touched: files,
        file_extensions: vec![],
        active_days: 1,
        first_commit: "2025-01-01".to_string(),
        last_commit: "2025-01-15".to_string(),
    }
}

fn make_activity(email: &str, weekday_commits: [u32; 7], hour_commits: [u32; 24], active_dates: &[&str]) -> ContributorActivityStats {
    let mut dates: Vec<String> = active_dates.iter().map(|s| s.to_string()).collect();
    dates.sort();
    dates.dedup();
    let mut by_weekday: Vec<Vec<String>> = vec![vec![]; 7];
    for (i, &count) in weekday_commits.iter().enumerate() {
        if count > 0 {
            by_weekday[i] = dates.clone();
        }
    }
    let mut buckets = vec![];
    let mut by_hour: Vec<Vec<String>> = vec![vec![]; 24];
    for (h, &count) in hour_commits.iter().enumerate() {
        if count > 0 {
            for d in &dates {
                let b = format!("{d}:{h}");
                buckets.push(b.clone());
                by_hour[h].push(b);
            }
        }
    }
    ContributorActivityStats {
        email: email.to_lowercase(),
        weekday_commits: weekday_commits.to_vec(),
        hour_commits: hour_commits.to_vec(),
        active_dates: dates.clone(),
        active_dates_by_weekday: by_weekday,
        active_hour_buckets: buckets,
        active_hour_buckets_by_hour: by_hour,
        commits_by_date: dates.iter().map(|d| (d.clone(), 1)).collect(),
    }
}

fn set_count(act: &mut ContributorActivityStats, date: &str, count: u32) {
    if let Some(e) = act.commits_by_date.iter_mut().find(|(d, _)| d == date) {
        e.1 = count;
    } else {
        act.commits_by_date.push((date.to_string(), count));
    }
}

#[test]
fn build_weekday_chart_data_aggregates_across_repos() {
    let mut repo_a = make_repo("a", vec![], vec![], 0);
    repo_a.activity.by_weekday[0] = 5;
    repo_a.activity.by_weekday[4] = 3;
    let mut repo_b = make_repo("b", vec![], vec![], 0);
    repo_b.activity.by_weekday[0] = 2;
    repo_b.activity.by_weekday[6] = 1;

    let chart = build_weekday_chart_data(&vec![repo_a, repo_b]);
    assert_eq!(chart.title, "Commits by Weekday");
    assert_eq!(chart.bars.len(), 7);
    assert_eq!(chart.bars[0], ("Monday".to_string(), 7));
    assert_eq!(chart.bars[4], ("Friday".to_string(), 3));
    assert_eq!(chart.bars[6], ("Sunday".to_string(), 1));
    assert_eq!(chart.bars[1].1, 0);
}

#[test]
fn build_hourly_chart_data_aggregates_across_repos() {
    let mut repo_a = make_repo("a", vec![], vec![], 0);
    repo_a.activity.by_hour[10] = 4;
    let mut repo_b = make_repo("b", vec![], vec![], 0);
    repo_b.activity.by_hour[10] = 6;
    repo_b.activity.by_hour[15] = 2;

    let chart = build_hourly_chart_data(&vec![repo_a, repo_b]);
    assert_eq!(chart.title, "Commits by Hour");
    assert_eq!(chart.bars.len(), 24);
    assert_eq!(chart.bars[10], ("10:00".to_string(), 10));
    assert_eq!(chart.bars[15], ("15:00".to_string(), 2));
    assert_eq!(chart.bars[0].1, 0);
}

#[test]
fn build_heatmap_data_places_commits_in_grid() {
    let mut weekday = [0u32; 7];
    weekday[0] = 2;
    weekday[2] = 1;
    let hour = [0u32; 24];

    let repos = vec![make_repo(
        "repo",
        vec![make_contributor("alice@example.com", 3, 10, 0, 1)],
        vec![make_activity("alice@example.com", weekday, hour, &["2025-01-13", "2025-01-15"])],
        3,
    )];

    let data = build_heatmap_data(&repos, None, "2025-01-19", &no_settings());

    assert!(data.max_count >= 1);
    assert!(data.week_count > 0);
    let last_week = data.week_count - 1;
    assert_eq!(data.grid[0][last_week], 1);
    assert_eq!(data.grid[2][last_week], 1);
}

#[test]
fn build_heatmap_data_filters_by_email() {
    let mut weekday = [0u32; 7];
    weekday[0] = 1;
    let hour = [0u32; 24];

    let repos = vec![make_repo(
        "repo",
        vec![
            make_contributor("alice@example.com", 1, 10, 0, 1),
            make_contributor("bob@example.com", 1, 5, 0, 1),
        ],
        vec![
            make_activity("alice@example.com", weekday, hour, &["2025-01-13"]),
            make_activity("bob@example.com", weekday, hour, &["2025-01-14"]),
        ],
        2,
    )];

    let data = build_heatmap_data(&repos, Some("alice@example.com"), "2025-01-19", &no_settings());
    assert_eq!(data.max_count, 1);
    let last_week = data.week_count - 1;
    assert_eq!(data.grid[0][last_week], 1);
    assert_eq!(data.grid[1][last_week], 0);
}

#[test]
fn build_heatmap_data_empty() {
    let repos: Vec<RepositoryAnalysis> = vec![];
    let data = build_heatmap_data(&repos, None, "2025-01-19", &no_settings());
    assert_eq!(data.max_count, 0);
    assert!(data.week_count > 0);
}

#[test]
fn build_heatmap_data_has_month_labels() {
    let repos: Vec<RepositoryAnalysis> = vec![];
    let data = build_heatmap_data(&repos, None, "2025-06-15", &no_settings());
    assert!(data.month_labels.len() >= 12);
}

#[test]
fn build_heatmap_data_mid_week_end_date() {
    let mut weekday = [0u32; 7];
    weekday[2] = 1;
    let hour = [0u32; 24];

    let repos = vec![make_repo(
        "repo",
        vec![make_contributor("alice@example.com", 1, 5, 0, 1)],
        vec![make_activity("alice@example.com", weekday, hour, &["2025-01-15"])],
        1,
    )];

    let data = build_heatmap_data(&repos, None, "2025-01-15", &no_settings());
    let last_week = data.week_count - 1;
    assert_eq!(data.grid[2][last_week], 1);
    for day in 3..7 {
        assert_eq!(data.grid[day][last_week], 0);
    }
}

#[test]
fn build_heatmap_data_exact_layout() {
    let data = build_heatmap_data(&vec![], None, "2025-01-19", &no_settings());
    // 2024-01-21 is 52 weeks earlier, a Sunday; the grid starts on the Monday before it.
    assert_eq!(data.start_date, "2024-01-15");
    assert_eq!(data.end_date, "2025-01-19");
    assert_eq!(data.week_count, 53);
    assert_eq!(data.grid.len(), 7);
    assert!(data.grid.iter().all(|row| row.len() == 53));
    assert_eq!(data.month_labels[0], (0, "Jan".to_string()));
    assert_eq!(data.month_labels[1], (3, "Feb".to_string()));
}

#[test]
fn build_timeline_data_merges_across_repos() {
    let today = today_ymd();
    let d1 = add_days(&today, -10);
    let d2 = add_days(&today, -9);
    let d3 = add_days(&today, -8);

    let mut weekday = [0u32; 7];
    weekday[0] = 2;
    let hour = [0u32; 24];

    let repo_a = make_repo(
        "repo-a",
        vec![make_contributor("alice@example.com", 2, 20, 5, 2)],
        vec![make_activity("alice@example.com", weekday, hour, &[&d1, &d2])],
        2,
    );
    let repo_b = make_repo(
        "repo-b",
        vec![make_contributor("alice@example.com", 1, 10, 2, 1)],
        vec![make_activity("alice@example.com", weekday, hour, &[&d1, &d3])],
        1,
    );

    let timeline = build_timeline_data(&vec![repo_a, repo_b]);

    assert_eq!(timeline.points.len(), 3);
    assert_eq!(timeline.start_date, d1);
    assert_eq!(timeline.end_date, d3);
    let merged = timeline.points.iter().find(|(d, _)| *d == d1).unwrap();
    assert_eq!(merged.1, 2);
}

#[test]
fn build_timeline_data_empty_repos() {
    let timeline = build_timeline_data(&vec![]);
    assert!(timeline.points.is_empty());
    assert!(timeline.start_date.is_empty());
    assert!(timeline.end_date.is_empty());
}

#[test]
fn build_timeline_data_since_drops_older_dates_and_sorts() {
    let mut act = make_activity("a@x.com", [1, 0, 0, 0, 0, 0, 0], [0; 24], &[]);
    act.commits_by_date = vec![
        ("2025-03-02".to_string(), 2),
        ("2025-01-05".to_string(), 7),
        ("2025-03-01".to_string(), u32::MAX),
    ];
    let mut act2 = make_activity("b@x.com", [1, 0, 0, 0, 0, 0, 0], [0; 24], &[]);
    act2.commits_by_date = vec![("2025-03-01".to_string(), 5)];
    let repos = vec![make_repo("r", vec![], vec![act, act2], 0)];
    let t = build_timeline_data_since(&repos, "2025-02-01");
    assert_eq!(t.title, "Commit Timeline (last 3 months)");
    assert_eq!(
        t.points,
        vec![("2025-03-01".to_string(), u32::MAX), ("2025-03-02".to_string(), 2)]
    );
    assert_eq!(t.start_date, "2025-03-01");
    assert_eq!(t.end_date, "2025-03-02");
}

#[test]
fn build_overall_trends_empty_repos() {
    let trends = build_overall_trends(&vec![], "2026-04-15");
    assert_eq!(trends.reference_date, "2026-04-15");
    assert_eq!(trends.last_30d_commits, 0);
    assert_eq!(trends.last_90d_commits, 0);
    assert!(!trends.has_change_30d());
}

#[test]
fn build_overall_trends_merges_across_repos_and_contributors() {
    let mut weekday = [0u32; 7];
    weekday[0] = 1;
    let hour = [0u32; 24];

    let mut act_a = make_activity("alice@example.com", weekday, hour, &["2026-04-10"]);
    set_count(&mut act_a, "2026-04-10", 4);
    let mut act_b = make_activity("bob@example.com", weekday, hour, &["2026-04-10"]);
    set_count(&mut act_b, "2026-04-10", 6);

    let repo_a = make_repo("repo-a", vec![make_contributor("alice@example.com", 4, 0, 0, 0)], vec![act_a], 4);
    let repo_b = make_repo("repo-b", vec![make_contributor("bob@example.com", 6, 0, 0, 0)], vec![act_b], 6);

    let trends = build_overall_trends(&vec![repo_a, repo_b], "2026-04-15");
    assert!((avg(trends.last_30d_commits, 30.0) - 10.0 / 30.0).abs() < 1e-9);
    assert_eq!(trends.last_30d_commits, 10);
}

fn make_analysis(name: &str, contributors: Vec<ContributorStats>, files: u64) -> RepositoryAnalysis {
    let total_commits: u64 = contributors.iter().map(|c| c.commits).sum();
    let mut r = make_repo(name, contributors, vec![], total_commits);
    r.size = SizeMetrics {
        files,
        directories: 1,
        total_bytes: files * 100,
        total_lines: files * 10,
        non_empty_lines: files * 8,
        blank_lines: files * 2,
        by_extension: vec![],
        largest_files: vec![],
    };
    r
}

fn named(name: &str, email: &str, commits: u64, net_lines: i64) -> ContributorStats {
    let mut c = make_contributor(email, commits, net_lines.unsigned_abs(), 0, commits);
    c.name = name.to_string();
    c.net_lines = net_lines;
    c
}

#[test]
fn aggregate_sums_file_counts() {
    let repo_a = make_analysis("repo-a", vec![], 10);
    let repo_b = make_analysis("repo-b", vec![], 20);

    let report = build_comparison_report(vec![repo_a, repo_b], vec![], &no_settings());
    assert_eq!(report.summary.total_files, 30);
}

#[test]
fn aggregate_merges_contributors_by_email() {
    let alice_a = named("Alice", "alice@example.com", 5, 100);
    let bob = named("Bob", "bob@example.com", 3, 50);
    let alice_b = named("Alice", "alice@example.com", 2, 30);

    let repo_a = make_analysis("repo-a", vec![alice_a, bob], 10);
    let repo_b = make_analysis("repo-b", vec![alice_b], 5);

    let report = build_comparison_report(vec![repo_a, repo_b], vec![], &no_settings());

    assert_eq!(report.summary.total_contributors, 2);
    assert_eq!(report.summary.total_commits, 10);
    assert_eq!(report.summary.total_lines_changed, 180);
}

#[test]
fn aggregate_total_lines_changed_counts_additions_and_deletions() {
    let mut alice = make_contributor("alice@example.com", 2, 10, 4, 1);
    alice.name = "Alice".to_string();
    let mut repo = make_repo("repo-a", vec![alice], vec![], 2);
    repo.size.files = 1;

    let report = build_comparison_report(vec![repo], vec![], &no_settings());
    assert_eq!(report.summary.total_lines_changed, 14);
}

#[test]
fn aggregate_preserves_per_repo_ordering() {
    let repo_a = make_analysis("repo-a", vec![], 10);
    let repo_b = make_analysis("repo-b", vec![], 20);

    let report = build_comparison_report(vec![repo_a, repo_b], vec![], &no_settings());

    assert_eq!(report.repositories.len(), 2);
    assert_eq!(report.repositories[0].repository.root, "/tmp/repo-a");
    assert_eq!(report.repositories[1].repository.root, "/tmp/repo-b");
}

#[test]
fn aggregate_includes_failures() {
    let repo_a = make_analysis("repo-a", vec![], 10);
    let failure = PartialFailure {
        path: "/tmp/bad-repo".to_string(),
        reason: "not a git repository".to_string(),
    };

    let report = build_comparison_report(vec![repo_a], vec![failure], &no_settings());
    assert_eq!(report.failures.len(), 1);
    assert_eq!(report.failures[0].reason, "not a git repository");
}

#[test]
fn aggregate_counts_aliases_once() {
    let settings = Settings::from_users(vec![(
        "Alice".to_string(),
        vec!["alice@work.com".to_string(), "alice@home.com".to_string()],
    )]);
    let repo = make_analysis(
        "r",
        vec![named("A", "alice@work.com", 1, 1), named("A", "ALICE@HOME.COM", 1, 1), named("B", "b@x.com", 1, 1)],
        0,
    );
    let report = build_comparison_report(vec![repo], vec![], &settings);
    assert_eq!(report.summary.total_contributors, 2);
}

fn make_report_with_shared_contributor() -> Vec<RepositoryAnalysis> {
    let mut weekday = [0u32; 7];
    weekday[0] = 3;
    let mut hour = [0u32; 24];
    hour[10] = 3;

    let mut c_a = make_contributor("alice@example.com", 3, 30, 5, 3);
    c_a.file_extensions = vec![("rs".to_string(), 2), ("md".to_string(), 1)];

    let repo_a = make_repo(
        "repo-a",
        vec![c_a],
        vec![make_activity("alice@example.com", weekday, hour, &["2025-01-13", "2025-01-14"])],
        3,
    );

    let mut weekday2 = [0u32; 7];
    weekday2[0] = 2;
    let mut hour2 = [0u32; 24];
    hour2[10] = 2;

    let mut c_b = make_contributor("alice@example.com", 2, 10, 2, 1);
    c_b.file_extensions = vec![("rs".to_string(), 3), ("toml".to_string(), 1)];

    let repo_b = make_repo(
        "repo-b",
        vec![c_b],
        vec![make_activity("alice@example.com", weekday2, hour2, &["2025-01-13", "2025-01-15"])],
        2,
    );

    vec![repo_a, repo_b]
}

#[test]
fn build_contribution_rows_merges_by_email_and_sorts_by_commits() {
    let repos = make_report_with_shared_contributor();

    let rows = build_contribution_rows(&repos, &no_settings());

    assert_eq!(rows.len(), 1);
    assert_eq!(rows[0].email, "alice@example.com");
    assert_eq!(rows[0].commits, 5);
    assert_eq!(rows[0].lines_modified, 47);
    assert_eq!(rows[0].files_touched, 4);
}

#[test]
fn get_contributor_emails_deduplicates() {
    let repos = make_report_with_shared_contributor();
    let emails = get_contributor_emails(&repos, &no_settings());
    assert_eq!(emails.len(), 1);
    assert_eq!(emails[0].0, "alice@example.com");
}

#[test]
fn merged_contributors_sort_by_commits_then_key_and_keep_first_name() {
    let settings = Settings::from_users(vec![("Zed".to_string(), vec!["z1@x.com".to_string(), "z2@x.com".to_string()])]);
    let mut anon = make_contributor("z1@x.com", 2, 1, 1, 1);
    anon.name = String::new();
    let repos = vec![
        make_repo(
            "a",
            vec![anon, make_contributor("bob@x.com", 4, 1, 0, 1), make_contributor("amy@x.com", 4, 0, 0, 0)],
            vec![make_activity("only@x.com", [0; 7], [0; 24], &[])],
            10,
        ),
        make_repo("b", vec![make_contributor("Z2@x.com", 3, 5, 5, 2)], vec![], 3),
    ];
    let emails = get_contributor_emails(&repos, &settings);
    assert_eq!(
        emails,
        vec![
            ("Zed".to_string(), "Z2".to_string()),
            ("amy@x.com".to_string(), "amy".to_string()),
            ("bob@x.com".to_string(), "bob".to_string()),
            ("only@x.com".to_string(), String::new()),
        ]
    );
    let rows = build_contribution_rows(&repos, &settings);
    assert_eq!(rows[0].email, "Zed");
    assert_eq!(rows[0].commits, 5);
    assert_eq!(rows[0].lines_modified, 12);
    assert_eq!(rows[0].files_touched, 3);
    assert_eq!(rows[3].commits, 0);
}

#[test]
fn build_repo_comparison_computes_commits_per_day() {
    // repo-a: 3 commits on 2 active dates → 1.5 cpd
    // repo-b: 2 commits on 2 active dates → 1.0 cpd
    let repos = make_report_with_shared_contributor();
    let rows = build_repo_comparison(&repos);

    assert_eq!(rows.len(), 2);
    let a = rows.iter().find(|r| r.name == "repo-a").unwrap();
    let b = rows.iter().find(|r| r.name == "repo-b").unwrap();
    let cpd = |r: &repolyze::analytics::RepoComparisonRow| r.total_commits as f64 / r.active_days as f64;
    assert_eq!(a.total_commits, 3);
    assert_eq!(a.active_days, 2);
    assert!((cpd(a) - 1.5).abs() < 0.01);
    assert_eq!(b.total_commits, 2);
    assert_eq!(b.active_days, 2);
    assert!((cpd(b) - 1.0).abs() < 0.01);
}

#[test]
fn build_repo_comparison_counts_weekday_days() {
    let repos = make_report_with_shared_contributor();
    let rows = build_repo_comparison(&repos);
    assert_eq!(rows[0].weekday_active_days[0], 2);
    assert_eq!(rows[0].weekday_active_days[1], 0);
    assert_eq!(rows[0].weekday_commits, repos[0].activity.by_weekday);
}

fn ratio(num: u64, den: u64) -> f64 {
    if den == 0 {
        0.0
    } else {
        num as f64 / den as f64
    }
}

#[test]
fn build_user_activity_rows_dedupes_dates_across_repositories() {
    // Alice commits on 2025-01-13 in both repos — should count as 1 active date
    // Total: 3 distinct dates, 5 commits → avg = 5/3
    let repos = make_report_with_shared_contributor();

    let rows = repolyze::users::build_user_activity_rows(&repos, &no_settings());

    assert_eq!(rows.len(), 1);
    assert_eq!(rows[0].identifier, "alice@example.com");
    // 3 distinct dates, 5 commits
    let expected_avg = 5.0 / 3.0;
    assert!((ratio(rows[0].commits, rows[0].active_days) - expected_avg).abs() < 0.01);
}

#[test]
fn build_user_activity_rows_sorts_by_total_commits_descending() {
    let mut weekday_a = [0u32; 7];
    weekday_a[0] = 10;
    let mut hour_a = [0u32; 24];
    hour_a[10] = 10;

    let mut weekday_b = [0u32; 7];
    weekday_b[0] = 5;
    let mut hour_b = [0u32; 24];
    hour_b[10] = 5;

    let repos = vec![make_repo(
        "repo-a",
        vec![
            make_contributor("big@example.com", 10, 10, 0, 1),
            make_contributor("focused@example.com", 5, 5, 0, 1),
        ],
        vec![
            make_activity(
                "big@example.com",
                weekday_a,
                hour_a,
                &["2025-01-13", "2025-01-14", "2025-01-15", "2025-01-16", "2025-01-17"],
            ),
            make_activity("focused@example.com", weekday_b, hour_b, &["2025-01-13"]),
        ],
        15,
    )];

    let rows = repolyze::users::build_user_activity_rows(&repos, &no_settings());

    assert_eq!(rows[0].identifier, "big@example.com");
    assert_eq!(rows[1].identifier, "focused@example.com");
}

#[test]
fn build_user_activity_rows_reports_best_day_and_hour() {
    let repos = make_report_with_shared_contributor();
    let rows = repolyze::users::build_user_activity_rows(&repos, &no_settings());
    let r = &rows[0];
    assert_eq!(r.most_active_week_day, "Monday");
    // 3 + 2 Monday commits on the distinct Mondays listed by both repositories
    assert_eq!(r.best_day_commits, 5);
    assert_eq!(r.best_day_active_days, 3);
    assert_eq!(r.commits, 5);
    assert_eq!(r.active_days, 3);
    assert_eq!(r.best_hour_commits, 5);
    assert_eq!(r.best_hour_active_buckets, 3);
    assert_eq!(r.active_hour_buckets, 3);
}

#[test]
fn build_user_activity_rows_without_activity_shows_na() {
    let repos = vec![make_repo("r", vec![make_contributor("solo@example.com", 2, 1, 1, 1)], vec![], 2)];
    let rows = repolyze::users::build_user_activity_rows(&repos, &no_settings());
    assert_eq!(rows.len(), 1);
    assert_eq!(rows[0].most_active_week_day, "N/A");
    assert_eq!(rows[0].best_day_commits, 0);
    assert_eq!(rows[0].active_days, 0);
}

#[test]
fn build_user_effort_data_basic() {
    let mut weekday = [0u32; 7];
    weekday[0] = 3; // Monday
    weekday[4] = 1; // Friday
    let mut hour = [0u32; 24];
    hour[10] = 4;

    let mut c = make_contributor("alice@example.com", 4, 40, 10, 7);
    c.file_extensions = vec![("md".to_string(), 2u64), ("rs".to_string(), 5)];

    let repos = vec![make_repo(
        "repo",
        vec![c],
        vec![make_activity("alice@example.com", weekday, hour, &["2025-01-13", "2025-01-17"])],
        4,
    )];

    let effort =
        repolyze::users::build_user_effort_data(&repos, "alice@example.com", &no_settings(), "2026-04-15").unwrap();
    assert_eq!(effort.identifier, "alice@example.com");
    assert_eq!(effort.most_active_weekday, "Monday");
    assert_eq!(effort.least_active_weekday, "Friday");
    assert!((ratio(effort.commits, effort.active_days) - 2.0).abs() < 0.01); // 4 commits / 2 days
    assert_eq!(effort.top_extensions.len(), 2);
    assert_eq!(effort.top_extensions[0].0, "rs");
}

#[test]
fn build_user_effort_data_cross_repo_merge() {
    let repos = make_report_with_shared_contributor();
    let effort =
        repolyze::users::build_user_effort_data(&repos, "alice@example.com", &no_settings(), "2026-04-15").unwrap();
    assert_eq!(effort.identifier, "alice@example.com");
    // 5 commits / 3 distinct active dates
    assert!((ratio(effort.commits, effort.active_days) - 5.0 / 3.0).abs() < 0.01);
    // Extensions merged: rs = 2+3 = 5, md = 1, toml = 1
    assert_eq!(effort.top_extensions.len(), 3);
    assert_eq!(effort.top_extensions[0], ("rs".to_string(), 5));
}

#[test]
fn build_user_effort_data_unknown_email() {
    let repos = make_report_with_shared_contributor();
    assert!(repolyze::users::build_user_effort_data(&repos, "nobody@example.com", &no_settings(), "2026-04-15").is_none());
}

#[test]
fn build_user_effort_data_includes_trends() {
    let mut weekday = [0u32; 7];
    weekday[0] = 1;
    let hour = [0u32; 24];

    let today = "2026-04-15";
    let recent = add_days(today, -1);
    let mut act = make_activity("alice@example.com", weekday, hour, &[&recent]);
    set_count(&mut act, &recent, 3);

    let repos = vec![make_repo("repo-a", vec![make_contributor("alice@example.com", 3, 0, 0, 0)], vec![act], 3)];

    let effort = repolyze::users::build_user_effort_data(&repos, "alice@example.com", &no_settings(), today).unwrap();
    assert_eq!(effort.trends.reference_date, today);
    assert!((avg(effort.trends.last_30d_commits, 30.0) - 3.0 / 30.0).abs() < 1e-9);
}

#[test]
fn build_user_effort_data_matches_uppercase_identifier_and_merges_details() {
    let repos = make_report_with_shared_contributor();
    let effort =
        repolyze::users::build_user_effort_data(&repos, "Alice@Example.com", &no_settings(), "2026-04-15").unwrap();
    assert_eq!(effort.identifier, "alice@example.com");
    assert_eq!(effort.name, "alice");
    assert_eq!(effort.commits, 5);
    assert_eq!(effort.lines_modified, 47);
    assert_eq!(effort.files_touched, 4);
    assert_eq!(effort.first_commit, "2025-01-01");
    assert_eq!(effort.last_commit, "2025-01-15");
    assert_eq!(effort.least_active_weekday, "Monday");
    assert_eq!(effort.most_active_weekday_commits, 5);
    assert_eq!(effort.most_active_weekday_active_days, 3);
    assert_eq!(
        effort.top_extensions,
        vec![("rs".to_string(), 5), ("md".to_string(), 1), ("toml".to_string(), 1)]
    );
}

use repolyze::analytics::contribution_rows_checked;
use repolyze::store::snapshot::{snapshot_rows, StatRow};

#[test]
fn contribution_rows_checked_refuses_totals_beyond_u64() {
    let ok = vec![make_repo("a", vec![make_contributor("a@x.com", 3, 10, 2, 1)], vec![], 3)];
    let rows = contribution_rows_checked(&ok, &no_settings()).expect("small totals fit");
    assert_eq!(rows.len(), 1);
    assert_eq!(rows[0].commits, 3);
    let big = vec![
        make_repo("a", vec![make_contributor("a@x.com", u64::MAX, 0, 0, 0)], vec![], 1),
        make_repo("b", vec![make_contributor("b@x.com", 1, 0, 0, 0)], vec![], 1),
    ];
    assert!(contribution_rows_checked(&big, &no_settings()).is_none());
}

#[test]
fn snapshot_rows_summarize_period_contributors_and_nonzero_counts() {
    let mut alice = make_contributor("Alice@X.com", 5, 10, 4, 2);
    alice.first_commit = "2025-01-03T09:00:00+00:00".to_string();
    alice.last_commit = "2025-01-20T10:00:00+00:00".to_string();
    let mut bob = make_contributor("bob@x.com", 2, 1, 1, 1);
    bob.first_commit = "2025-01-01T09:00:00+00:00".to_string();
    bob.last_commit = String::new();
    let mut hours = [0u32; 24];
    hours[9] = 3;
    hours[14] = 3;
    let act = make_activity("alice@x.com", [2, 0, 3, 0, 0, 0, 0], hours, &["2025-01-06", "2025-01-08"]);
    let repo = make_repo("a", vec![alice, bob], vec![act], 7);
    let rows = snapshot_rows(&repo);
    assert_eq!(rows.period_start.as_deref(), Some("2025-01-01T09:00:00+00:00"));
    assert_eq!(rows.period_end.as_deref(), Some("2025-01-20T10:00:00+00:00"));
    assert_eq!(rows.total_commits, 7);
    assert_eq!(rows.contributor_count, 2);
    assert_eq!(rows.summaries[0].lines_changed, 14);
    assert_eq!(rows.summaries[0].most_active_weekday, Some(2));
    assert_eq!(rows.summaries[0].most_active_hour, Some(14));
    assert_eq!(rows.summaries[1].most_active_weekday, None);
    assert_eq!(
        rows.weekday_stats,
        vec![
            StatRow { contributor: 0, slot: 0, commits: 2, distinct: 2 },
            StatRow { contributor: 0, slot: 2, commits: 3, distinct: 2 },
        ]
    );
    assert_eq!(rows.hour_stats.len(), 2);
    assert_eq!(rows.hour_stats[1].slot, 14);
}

#[test]
fn effort_fits_ordinary_reports_and_refuses_overflowing_totals() {
    let repos = make_report_with_shared_contributor();
    assert!(repolyze::effort_fit::effort_fits(&repos, &no_settings(), "2026-04-15"));
    let mut c = make_contributor("carol@example.com", 1, 0, 0, 0);
    c.file_extensions = vec![("rs".to_string(), u64::MAX), ("md".to_string(), 1)];
    let big = vec![make_repo("repo", vec![c], vec![], 1)];
    assert!(!repolyze::effort_fit::effort_fits(&big, &no_settings(), "2026-04-15"));
    let mut d = make_contributor("dave@example.com", u64::MAX, 0, 0, 0);
    d.file_extensions = vec![];
    let e = make_contributor("erin@example.com", 1, 0, 0, 0);
    let many = vec![make_repo("repo", vec![d, e], vec![], 1)];
    assert!(!repolyze::effort_fit::effort_fits(&many, &no_settings(), "2026-04-15"));
}
