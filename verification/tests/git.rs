use repolyze::git::activity::{build_activity_summary, day_of_week, parse_hour_and_weekday};
use repolyze::git::branches::{
    delete_commands, delete_outcome, is_protected, merged_branches_from, stale_branches_from,
    stale_threshold, BranchInfo,
};
use repolyze::git::contributions::{aggregate_contributions, contributions_from_log};
use repolyze::git::parse::{parse_git_log, FileChange, ParsedCommit};
use repolyze::git::repository::head_metadata_from;

#[test]
fn parses_single_commit() {
    let output = "abc123\x1fAlice\x1falice@example.com\x1f2025-01-15T10:00:00+00:00\n\
                   3\t0\tREADME.md\n";
    let commits = parse_git_log(output).unwrap();
    assert_eq!(commits.len(), 1);
    assert_eq!(commits[0].author_name, "Alice");
    assert_eq!(commits[0].file_changes.len(), 1);
    assert_eq!(commits[0].file_changes[0].additions, 3);
}

#[test]
fn parses_multiple_commits() {
    let output = "abc123\x1fAlice\x1falice@example.com\x1f2025-01-15T10:00:00+00:00\n\
                   3\t0\tREADME.md\n\
                   \n\
                   def456\x1fBob\x1fbob@example.com\x1f2025-01-16T14:30:00+00:00\n\
                   1\t0\tsrc/lib.rs\n";
    let commits = parse_git_log(output).unwrap();
    assert_eq!(commits.len(), 2);
    assert_eq!(commits[0].author_name, "Alice");
    assert_eq!(commits[1].author_name, "Bob");
}

#[test]
fn handles_binary_file_numstat() {
    let output = "abc123\x1fAlice\x1falice@example.com\x1f2025-01-15T10:00:00+00:00\n\
                   -\t-\timage.png\n";
    let commits = parse_git_log(output).unwrap();
    assert_eq!(commits[0].file_changes[0].additions, 0);
    assert_eq!(commits[0].file_changes[0].deletions, 0);
}

#[test]
fn numstat_before_any_commit_is_ignored() {
    let output = "1\t2\torphan.txt\nabc\x1fA\x1fa@x\x1f2025-01-01T00:00:00Z\n";
    let commits = parse_git_log(output).unwrap();
    assert_eq!(commits.len(), 1);
    assert!(commits[0].file_changes.is_empty());
    assert!(parse_git_log("").unwrap().is_empty());
}

fn make_commit(timestamp: &str) -> ParsedCommit {
    ParsedCommit {
        hash: "abc".to_string(),
        author_name: "Test".to_string(),
        author_email: "test@test.com".to_string(),
        timestamp: timestamp.to_string(),
        file_changes: Vec::new(),
    }
}

#[test]
fn activity_histograms_use_commit_timestamps() {
    let commits = vec![
        make_commit("2025-01-15T10:00:00+00:00"), // Wed, hour 10
        make_commit("2025-01-15T10:30:00+00:00"), // Wed, hour 10
        make_commit("2025-01-16T14:00:00+00:00"), // Thu, hour 14
    ];

    let summary = build_activity_summary(&commits);

    assert_eq!(summary.by_hour[10], 2);
    assert_eq!(summary.by_hour[14], 1);
    assert_eq!(summary.by_hour.iter().sum::<u32>(), 3);

    assert_eq!(summary.by_weekday[2], 2); // Wednesday
    assert_eq!(summary.by_weekday[3], 1); // Thursday
    assert_eq!(summary.by_weekday.iter().sum::<u32>(), 3);

    assert_eq!(summary.heatmap[2][10], 2); // Wed hour 10
    assert_eq!(summary.heatmap[3][14], 1); // Thu hour 14
}

#[test]
fn activity_day_of_week_known_dates() {
    assert_eq!(day_of_week(2025, 1, 15), Some(2));
    assert_eq!(day_of_week(2025, 1, 16), Some(3));
    assert_eq!(day_of_week(2025, 1, 13), Some(0));
    assert_eq!(day_of_week(2025, 1, 19), Some(6));
}

#[test]
fn day_of_week_rejects_out_of_range_fields() {
    assert_eq!(day_of_week(2025, 13, 1), None);
    assert_eq!(day_of_week(2025, 1, 32), None);
    assert_eq!(day_of_week(2025, 0, 1), None);
}

#[test]
fn handles_empty_commits() {
    let summary = build_activity_summary(&vec![]);
    assert_eq!(summary.by_hour.iter().sum::<u32>(), 0);
    assert_eq!(summary.by_weekday.iter().sum::<u32>(), 0);
}

#[test]
fn unreadable_timestamps_are_not_counted_and_totals_agree() {
    let commits = vec![
        make_commit("2025-01-15T10:00:00+00:00"),
        make_commit("no time here"),
        make_commit("2025-01-15T25:00:00+00:00"),
        make_commit("2025-01-19T23:59:00Z"),
    ];
    let summary = build_activity_summary(&commits);
    let hours: u32 = summary.by_hour.iter().sum();
    let days: u32 = summary.by_weekday.iter().sum();
    assert_eq!((hours, days), (2, 2));
    for w in 0..7 {
        assert_eq!(summary.heatmap[w].iter().sum::<u32>(), summary.by_weekday[w]);
    }
    assert_eq!(parse_hour_and_weekday("2025-01-19T23:59:00Z"), Some((23, 6)));
    assert_eq!(parse_hour_and_weekday("2025-01-15T25:00:00+00:00"), None);
}

#[test]
fn contribution_stats_are_aggregated_by_email() {
    let commits = vec![
        ParsedCommit {
            hash: "aaa".to_string(),
            author_name: "Alice".to_string(),
            author_email: "alice@example.com".to_string(),
            timestamp: "2025-01-15T10:00:00+00:00".to_string(),
            file_changes: vec![FileChange {
                additions: 10,
                deletions: 0,
                path: "README.md".to_string(),
            }],
        },
        ParsedCommit {
            hash: "bbb".to_string(),
            author_name: "Bob".to_string(),
            author_email: "bob@example.com".to_string(),
            timestamp: "2025-01-16T14:30:00+00:00".to_string(),
            file_changes: vec![FileChange {
                additions: 5,
                deletions: 2,
                path: "src/lib.rs".to_string(),
            }],
        },
        ParsedCommit {
            hash: "ccc".to_string(),
            author_name: "Alice".to_string(),
            author_email: "alice@example.com".to_string(),
            timestamp: "2025-01-17T09:15:00+00:00".to_string(),
            file_changes: vec![FileChange {
                additions: 3,
                deletions: 1,
                path: "README.md".to_string(),
            }],
        },
    ];

    let summary = aggregate_contributions(&commits);
    assert_eq!(summary.total_commits, 3);
    assert_eq!(summary.contributors.len(), 2);

    // Alice has 2 commits (should be first - sorted by commits desc)
    let alice = &summary.contributors[0];
    assert_eq!(alice.name, "Alice");
    assert_eq!(alice.commits, 2);
    assert_eq!(alice.lines_added, 13);
    assert_eq!(alice.lines_deleted, 1);
    assert_eq!(alice.net_lines, 12);
    assert_eq!(alice.files_touched, 1); // only README.md
    assert_eq!(alice.active_days, 2);

    // Bob has 1 commit
    let bob = &summary.contributors[1];
    assert_eq!(bob.name, "Bob");
    assert_eq!(bob.commits, 1);
    assert_eq!(bob.lines_added, 5);
    assert_eq!(bob.lines_deleted, 2);
    assert_eq!(bob.files_touched, 1);
}

fn make_change_commit(
    email: &str,
    timestamp: &str,
    additions: u64,
    deletions: u64,
    path: &str,
) -> ParsedCommit {
    ParsedCommit {
        hash: format!("{email}-{timestamp}"),
        author_name: email.split('@').next().unwrap().to_string(),
        author_email: email.to_string(),
        timestamp: timestamp.to_string(),
        file_changes: vec![FileChange {
            additions,
            deletions,
            path: path.to_string(),
        }],
    }
}

#[test]
fn contribution_summary_tracks_per_user_weekday_hour_and_active_buckets() {
    // 2025-01-13 is Monday (weekday 0)
    // 2025-01-15 is Wednesday (weekday 2)
    let commits = vec![
        make_change_commit("alice@example.com", "2025-01-13T10:00:00+00:00", 5, 1, "src/a.rs"),
        make_change_commit("alice@example.com", "2025-01-13T10:45:00+00:00", 3, 0, "src/b.rs"),
        make_change_commit("alice@example.com", "2025-01-15T14:00:00+00:00", 2, 2, "src/c.rs"),
    ];

    let summary = aggregate_contributions(&commits);
    let alice = summary
        .activity_by_contributor
        .iter()
        .find(|row| row.email == "alice@example.com")
        .unwrap();

    // weekday 0 = Monday: 2 commits, weekday 2 = Wednesday: 1 commit
    assert_eq!(alice.weekday_commits[0], 2);
    assert_eq!(alice.weekday_commits[2], 1);
    // hour 10: 2 commits, hour 14: 1 commit
    assert_eq!(alice.hour_commits[10], 2);
    assert_eq!(alice.hour_commits[14], 1);
    // 2 distinct active dates
    assert_eq!(alice.active_dates.len(), 2);
    // weekday 0 (Monday) has 1 active date, weekday 2 (Wednesday) has 1
    assert_eq!(alice.active_dates_by_weekday[0].len(), 1);
    assert_eq!(alice.active_dates_by_weekday[2].len(), 1);
    // 2 distinct hour buckets: "2025-01-13:10" and "2025-01-15:14"
    assert_eq!(alice.active_hour_buckets.len(), 2);
}

#[test]
fn emails_are_grouped_case_insensitively_with_first_and_last_commit() {
    let commits = vec![
        make_change_commit("Carol@Example.com", "2025-02-01T08:00:00Z", 1, 0, "x"),
        make_change_commit("carol@example.com", "2025-01-01T08:00:00Z", 1, 0, "y"),
        make_change_commit("dave@example.com", "2025-03-01T08:00:00Z", 1, 0, "x"),
    ];
    let summary = aggregate_contributions(&commits);
    assert_eq!(summary.total_commits, 3);
    let carol = &summary.contributors[0];
    assert_eq!(carol.email, "carol@example.com");
    assert_eq!(carol.name, "Carol");
    assert_eq!(carol.commits, 2);
    assert_eq!(carol.first_commit, "2025-01-01T08:00:00Z");
    assert_eq!(carol.last_commit, "2025-02-01T08:00:00Z");
    let total: u64 = summary.contributors.iter().map(|c| c.commits).sum();
    assert_eq!(total, summary.total_commits);
    // Activity rows: most commits first, then by email.
    assert_eq!(summary.activity_by_contributor[0].email, "carol@example.com");
    assert_eq!(summary.activity_by_contributor[1].email, "dave@example.com");
    let carol_act = &summary.activity_by_contributor[0];
    assert_eq!(carol_act.commits_by_date.len(), 2);
}

#[test]
fn contributions_from_log_parses_and_aggregates() {
    let output = "abc\x1fAlice\x1fAlice@Example.com\x1f2025-01-15T10:00:00+00:00\n4\t1\ta.rs\n";
    let (summary, commits) = contributions_from_log(output).unwrap();
    assert_eq!(commits.len(), 1);
    assert_eq!(summary.contributors[0].email, "alice@example.com");
    assert_eq!(summary.contributors[0].lines_added, 4);
    let huge = format!(
        "a\x1fA\x1fa@x\x1f2025-01-01T00:00:00Z\n{}\t0\tf\n{}\t0\tg\n",
        u64::MAX,
        1
    );
    assert!(contributions_from_log(&huge).is_err());
}

#[test]
fn protected_branches_are_detected() {
    assert!(is_protected("main"));
    assert!(is_protected("master"));
    assert!(is_protected("dev"));
    assert!(is_protected("develop"));
    assert!(is_protected("development"));
    assert!(is_protected("sandbox"));
    assert!(is_protected("prod"));
    assert!(is_protected("production"));
    assert!(is_protected("demo"));
    assert!(!is_protected("feature/foo"));
    assert!(!is_protected("bugfix/bar"));
}

#[test]
fn merged_branches_combine_local_and_remote_listings() {
    let local = "  feature/b\n* main\n  feature/a\n  develop\n  current\n";
    let remote = "  origin/HEAD -> origin/main\n  origin/feature/a\n  origin/feature/c\n  upstream/feature/d\n";
    let branches = merged_branches_from(local, remote, "main", "current");
    let names: Vec<(&str, bool, bool)> =
        branches.iter().map(|b| (b.name.as_str(), b.has_local, b.has_remote)).collect();
    assert_eq!(
        names,
        vec![("feature/a", true, true), ("feature/b", true, false), ("feature/c", false, true)]
    );
}

#[test]
fn stale_branches_are_older_than_the_threshold() {
    let local = "old 1000\nnew 5000\nmain 10\ncurrent 10\nbad line\n";
    let remote = "origin/old 1000\norigin/gone 2000\norigin/HEAD 10\nupstream/x 10\n";
    let branches = stale_branches_from(local, remote, "current", 3000);
    let names: Vec<(&str, bool, bool)> =
        branches.iter().map(|b| (b.name.as_str(), b.has_local, b.has_remote)).collect();
    assert_eq!(names, vec![("gone", false, true), ("old", true, true)]);
    assert_eq!(branches[1].last_activity.as_deref(), Some("1970-01-01"));
    assert_eq!(stale_threshold(100_000, 1), 100_000 - 86_400);
    assert_eq!(stale_threshold(10, 1), 0);
    assert_eq!(stale_threshold(10, u64::MAX), 0);
}

#[test]
fn deleting_a_branch_plans_commands_and_reports_outcomes() {
    let branch = BranchInfo {
        name: "feature/x".to_string(),
        has_local: true,
        has_remote: true,
        last_activity: None,
    };
    let cmds = delete_commands(&branch, true);
    assert_eq!(cmds, vec![vec!["branch", "-D", "feature/x"], vec!["push", "origin", "--delete", "feature/x"]]);
    let r = delete_outcome(&branch, Some(Err("boom".to_string())), Some(Err("nope".to_string())));
    assert_eq!(r.local_ok, Some(false));
    assert_eq!(r.remote_ok, Some(false));
    assert_eq!(r.error.as_deref(), Some("local: boom; remote: nope"));
    let ok = delete_outcome(&branch, Some(Ok(())), Some(Ok(())));
    assert_eq!((ok.local_ok, ok.remote_ok, ok.error), (Some(true), Some(true), None));
}

#[test]
fn head_metadata_is_trimmed() {
    let m = head_metadata_from("abc123\n", "  main \n");
    assert_eq!(m.head_commit_hash, "abc123");
    assert_eq!(m.branch_name, "main");
}

#[test]
fn activity_dates_and_buckets_come_in_ascending_order() {
    let commits = vec![
        make_change_commit("alice@example.com", "2025-01-15T14:00:00+00:00", 2, 2, "src/c.rs"),
        make_change_commit("alice@example.com", "2025-01-13T10:45:00+00:00", 3, 0, "src/b.rs"),
        make_change_commit("alice@example.com", "2025-01-20T09:00:00+00:00", 1, 0, "src/d.rs"),
        make_change_commit("alice@example.com", "2025-01-13T08:00:00+00:00", 5, 1, "src/a.rs"),
    ];
    let summary = aggregate_contributions(&commits);
    let alice = &summary.activity_by_contributor[0];
    assert_eq!(alice.active_dates, vec!["2025-01-13", "2025-01-15", "2025-01-20"]);
    assert_eq!(alice.active_dates_by_weekday[0], vec!["2025-01-13", "2025-01-20"]);
    assert_eq!(
        alice.active_hour_buckets,
        vec!["2025-01-13:10", "2025-01-13:8", "2025-01-15:14", "2025-01-20:9"]
    );
    let dates: Vec<&str> = alice.commits_by_date.iter().map(|(d, _)| d.as_str()).collect();
    assert_eq!(dates, vec!["2025-01-13", "2025-01-15", "2025-01-20"]);
    assert_eq!(alice.commits_by_date[0].1, 2);
}
