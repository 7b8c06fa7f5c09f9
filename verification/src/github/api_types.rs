//! The shapes of the GitHub API replies that the analysis reads.
use vstd::prelude::*;

verus! {

/// Repository metadata from `GET /repos/{owner}/{repo}`.
#[derive(Debug, Clone)]
pub struct RepoInfo {
    pub full_name: String,
    /// Size in kilobytes.
    pub size: u64,
    pub default_branch: String,
}

/// Per-contributor statistics from `GET /repos/{owner}/{repo}/stats/contributors`.
#[derive(Debug, Clone)]
pub struct ContributorStat {
    pub author: Option<GitHubAuthor>,
    pub total: u64,
    pub weeks: Vec<WeekStat>,
}

#[derive(Debug, Clone)]
pub struct GitHubAuthor {
    pub login: String,
}

/// One week of a contributor's statistics.
#[derive(Debug, Clone, Copy)]
pub struct WeekStat {
    /// Unix timestamp of week start.
    pub w: u64,
    /// Additions.
    pub a: u64,
    /// Deletions.
    pub d: u64,
    /// Commits.
    pub c: u32,
}

/// Punch card entry from `GET /repos/{owner}/{repo}/stats/punch_card`:
/// `[day_of_week, hour, commit_count]`, with day 0 = Sunday .. 6 = Saturday.
#[derive(Debug, Clone, Copy)]
pub struct PunchCardEntry(pub u32, pub u32, pub u32);

/// Commit info from `GET /repos/{owner}/{repo}/commits`.
#[derive(Debug, Clone)]
pub struct CommitInfo {
    pub sha: String,
    pub commit: CommitDetail,
    pub author: Option<CommitGitHubAuthor>,
}

#[derive(Debug, Clone)]
pub struct CommitDetail {
    pub author: CommitAuthor,
}

#[derive(Debug, Clone)]
pub struct CommitAuthor {
    pub name: String,
    pub email: String,
    pub date: String,
}

#[derive(Debug, Clone)]
pub struct CommitGitHubAuthor {
    pub login: String,
}

} // verus!
