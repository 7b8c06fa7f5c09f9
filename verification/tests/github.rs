use repolyze::github::activity::build_activity_summary;
use repolyze::github::api_types::{
    CommitAuthor, CommitDetail, CommitGitHubAuthor, CommitInfo, ContributorStat, GitHubAuthor,
    PunchCardEntry, WeekStat,
};
use repolyze::github::contributors::build_contribution_summary;
use repolyze::github::client::parse_link_next;
use repolyze::github::contributors::{day_of_week, parse_hour_and_weekday};

#[test]
fn build_activity_summary_remaps_weekdays() {
    let entries = vec![
        PunchCardEntry(0, 10, 5),
        PunchCardEntry(1, 14, 3),
        PunchCardEntry(6, 9, 2),
    ];

    let summary = build_activity_summary(&entries);

    assert_eq!(summary.by_weekday[6], 5);
    assert_eq!(summary.by_weekday[0], 3);
    assert_eq!(summary.by_weekday[5], 2);

    assert_eq!(summary.by_hour[10], 5);
    assert_eq!(summary.by_hour[14], 3);
    assert_eq!(summary.by_hour[9], 2);

    assert_eq!(summary.heatmap[6][10], 5);
    assert_eq!(summary.heatmap[0][14], 3);
}

#[test]
fn build_activity_summary_skips_out_of_range_entries() {
    let entries = vec![
        PunchCardEntry(7, 10, 5),
        PunchCardEntry(1, 24, 3),
        PunchCardEntry(2, 23, 4),
        PunchCardEntry(2, 23, 1),
    ];
    let summary = build_activity_summary(&entries);
    assert_eq!(summary.by_weekday[1], 5);
    assert_eq!(summary.by_hour[23], 5);
    assert_eq!(summary.heatmap[1][23], 5);
    assert_eq!(summary.by_weekday.iter().sum::<u32>(), 5);
}

#[test]
fn build_activity_summary_of_nothing_is_all_zero() {
    let summary = build_activity_summary(&vec![]);
    assert_eq!(summary.by_hour.len(), 24);
    assert_eq!(summary.by_weekday.len(), 7);
    assert!(summary.by_hour.iter().all(|&c| c == 0));
}

#[test]
fn parse_link_next_extracts_url() {
    let header = r#"<https://api.github.com/repos/foo/bar/commits?page=2>; rel="next", <https://api.github.com/repos/foo/bar/commits?page=5>; rel="last""#;
    assert_eq!(
        parse_link_next(Some(header)),
        Some("https://api.github.com/repos/foo/bar/commits?page=2".to_string())
    );
}

#[test]
fn parse_link_next_returns_none_when_no_next() {
    let header = r#"<https://api.github.com/repos/foo/bar/commits?page=1>; rel="first""#;
    assert_eq!(parse_link_next(Some(header)), None);
}

#[test]
fn parse_link_next_returns_none_for_no_header() {
    assert_eq!(parse_link_next(None), None);
}

#[test]
fn parse_link_next_takes_second_part_when_it_is_next() {
    let header = r#"<https://x/p1>; rel="prev",  <https://x/p3>; rel="next""#;
    assert_eq!(parse_link_next(Some(header)), Some("https://x/p3".to_string()));
}

#[test]
fn parse_link_next_without_brackets_is_none() {
    assert_eq!(parse_link_next(Some(r#"https://x/p3; rel="next""#)), None);
}

#[test]
fn parse_hour_and_weekday_utc() {
    let result = parse_hour_and_weekday("2025-01-13T10:00:00Z");
    assert_eq!(result, Some((10, 0)));
}

#[test]
fn parse_hour_and_weekday_with_offset() {
    let result = parse_hour_and_weekday("2025-01-15T14:30:00+00:00");
    assert_eq!(result, Some((14, 2)));
}

#[test]
fn parse_hour_and_weekday_rejects_bad_input() {
    assert_eq!(parse_hour_and_weekday("2025-01-15 14:30:00"), None);
    assert_eq!(parse_hour_and_weekday("2025-01-15T24:30:00Z"), None);
    assert_eq!(parse_hour_and_weekday("2025-13-15T10:30:00Z"), None);
    assert_eq!(parse_hour_and_weekday("2025-01T10:30:00Z"), None);
}

#[test]
fn day_of_week_monday() {
    assert_eq!(day_of_week(2025, 1, 13), Some(0));
}

#[test]
fn day_of_week_sunday() {
    assert_eq!(day_of_week(2025, 1, 19), Some(6));
}

#[test]
fn day_of_week_rejects_out_of_range_parts() {
    assert_eq!(day_of_week(2025, 0, 10), None);
    assert_eq!(day_of_week(2025, 1, 32), None);
    assert_eq!(day_of_week(2000, 2, 29), Some(1));
}

fn commit(sha: &str, login: Option<&str>, name: &str, email: &str, date: &str) -> CommitInfo {
    CommitInfo {
        sha: sha.to_string(),
        commit: CommitDetail {
            author: CommitAuthor {
                name: name.to_string(),
                email: email.to_string(),
                date: date.to_string(),
            },
        },
        author: login.map(|l| CommitGitHubAuthor { login: l.to_string() }),
    }
}

fn week(a: u64, d: u64, c: u32) -> WeekStat {
    WeekStat { w: 0, a, d, c }
}

#[test]
fn build_contribution_summary_merges_stats_with_commits() {
    let stats = vec![
        ContributorStat { author: None, total: 1, weeks: vec![week(1, 0, 1)] },
        ContributorStat {
            author: Some(GitHubAuthor { login: "Alice".to_string() }),
            total: 3,
            weeks: vec![week(10, 2, 2), week(5, 1, 1)],
        },
        ContributorStat {
            author: Some(GitHubAuthor { login: "bob".to_string() }),
            total: 1,
            weeks: vec![week(0, 7, 1)],
        },
    ];
    let commits = vec![
        commit("c1", Some("alice"), "Alice Name", "Alice@Example.com", "2025-01-15T14:00:00Z"),
        commit("c2", Some("ALICE"), "Other Name", "alice@example.com", "2025-01-13T10:00:00Z"),
        commit("c3", None, "Nobody", "nobody@example.com", "2025-01-13T11:00:00Z"),
    ];
    let summary = build_contribution_summary(&stats, &commits).unwrap();
    assert_eq!(summary.total_commits, 5);
    assert_eq!(summary.contributors.len(), 3);

    let alice = &summary.contributors[0];
    assert_eq!(alice.name, "Alice Name");
    assert_eq!(alice.email, "alice@example.com");
    assert_eq!(alice.commits, 3);
    assert_eq!(alice.lines_added, 15);
    assert_eq!(alice.lines_deleted, 3);
    assert_eq!(alice.net_lines, 12);
    assert_eq!(alice.files_touched, 0);
    assert_eq!(alice.active_days, 2);
    assert_eq!(alice.first_commit, "2025-01-13T10:00:00Z");
    assert_eq!(alice.last_commit, "2025-01-15T14:00:00Z");

    // Equal commit counts keep the order of the statistics.
    let anon = &summary.contributors[1];
    assert_eq!(anon.name, "");
    assert_eq!(anon.email, "@users.noreply.github.com");
    assert_eq!(anon.active_days, 0);
    assert_eq!(anon.first_commit, "");
    let bob = &summary.contributors[2];
    assert_eq!(bob.name, "bob");
    assert_eq!(bob.email, "bob@users.noreply.github.com");
    assert_eq!(bob.net_lines, -7);

    let acts = &summary.activity_by_contributor;
    assert_eq!(acts.len(), 3);
    assert_eq!(acts[0].email, "alice@example.com");
    assert_eq!(acts[0].weekday_commits[0], 1);
    assert_eq!(acts[0].weekday_commits[2], 1);
    assert_eq!(acts[0].hour_commits[10], 1);
    assert_eq!(acts[0].hour_commits[14], 1);
    assert_eq!(acts[1].email, "@users.noreply.github.com");
    assert_eq!(acts[2].email, "bob@users.noreply.github.com");
    assert_eq!(acts[1].weekday_commits.iter().sum::<u32>(), 0);
}

use repolyze::github::client::{retry_step, ReplyShape, RetryStep};

#[test]
fn retry_step_accepts_ready_replies() {
    assert_eq!(retry_step(0, 3, ReplyShape::Array), RetryStep::Accept);
    assert_eq!(retry_step(2, 3, ReplyShape::NonEmptyObject), RetryStep::Accept);
}

#[test]
fn retry_step_backs_off_then_gives_up() {
    assert_eq!(retry_step(0, 3, ReplyShape::Other), RetryStep::WaitThenRetry(1));
    assert_eq!(retry_step(1, 3, ReplyShape::Other), RetryStep::WaitThenRetry(2));
    assert_eq!(retry_step(2, 3, ReplyShape::Other), RetryStep::GiveUp);
    assert_eq!(retry_step(0, 1, ReplyShape::Other), RetryStep::GiveUp);
}

#[test]
fn build_contribution_summary_keeps_order_of_equal_commit_counts() {
    let stat = |login: &str, total: u64| ContributorStat {
        author: Some(GitHubAuthor { login: login.to_string() }),
        total,
        weeks: vec![week(0, 0, total as u32)],
    };
    let stats = vec![stat("zed", 2), stat("amy", 5), stat("bob", 2), stat("cat", 2)];
    let summary = build_contribution_summary(&stats, &[].to_vec()).unwrap();
    let order: Vec<u64> = summary.contributors.iter().map(|c| c.commits).collect();
    assert_eq!(order, vec![5, 2, 2, 2]);
    let names: Vec<&str> = summary.contributors.iter().map(|c| c.name.as_str()).collect();
    assert_eq!(names, vec!["amy", "zed", "bob", "cat"]);
}
