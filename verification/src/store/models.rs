//! Rows of the database tables.
use vstd::prelude::*;

use crate::git::contributions::date_of;
use crate::text::{lowercase, string_of_str, to_lowercase};

verus! {

broadcast use vstd::string::group_string_axioms;

/// A contributor, keyed by lowercased email.
#[derive(Debug, Clone)]
pub struct ContributorRecord {
    pub canonical_email: String,
    pub display_name_last_seen: String,
}

impl ContributorRecord {
    pub fn new(email: &str, name: &str) -> (r: Self)
        ensures
            r.canonical_email@ == lowercase(email@),
            r.display_name_last_seen@ == name@,
    {
        ContributorRecord { canonical_email: to_lowercase(email), display_name_last_seen: string_of_str(name) }
    }
}

/// One commit of one repository.
#[derive(Debug, Clone)]
pub struct CommitRecord {
    pub repository_id: i64,
    pub contributor_id: i64,
    pub commit_hash: String,
    pub author_name: String,
    pub author_email: String,
    pub committed_at: String,
    pub commit_date: String,
    pub commit_hour: i64,
    pub commit_weekday: i64,
    pub files_changed_count: i64,
    pub lines_added: i64,
    pub lines_deleted: i64,
    pub lines_modified: i64,
}

impl CommitRecord {
    /// A commit row; its date is the part of `committed_at` before the first `T`.
    pub fn new(
        repository_id: i64,
        contributor_id: i64,
        commit_hash: &str,
        author_name: &str,
        author_email: &str,
        committed_at: &str,
        commit_hour: i64,
        commit_weekday: i64,
        files_changed_count: i64,
        lines_added: i64,
        lines_deleted: i64,
        lines_modified: i64,
    ) -> (r: Self)
        ensures
            r.repository_id == repository_id,
            r.contributor_id == contributor_id,
            r.commit_hash@ == commit_hash@,
            r.author_name@ == author_name@,
            r.author_email@ == author_email@,
            r.committed_at@ == committed_at@,
            r.commit_date@ == date_of(committed_at@),
            r.commit_hour == commit_hour,
            r.commit_weekday == commit_weekday,
            r.files_changed_count == files_changed_count,
            r.lines_added == lines_added,
            r.lines_deleted == lines_deleted,
            r.lines_modified == lines_modified,
    {
        let committed = string_of_str(committed_at);
        let commit_date = crate::git::contributions::date_prefix(&committed);
        CommitRecord {
            repository_id,
            contributor_id,
            commit_hash: string_of_str(commit_hash),
            author_name: string_of_str(author_name),
            author_email: string_of_str(author_email),
            committed_at: committed,
            commit_date,
            commit_hour,
            commit_weekday,
            files_changed_count,
            lines_added,
            lines_deleted,
            lines_modified,
        }
    }
}

/// One file change of a commit.
#[derive(Debug, Clone)]
pub struct CommitFileChangeRecord {
    pub file_path: String,
    pub additions: i64,
    pub deletions: i64,
    pub lines_modified: i64,
}

impl CommitFileChangeRecord {
    pub fn new(file_path: &str, additions: i64, deletions: i64, lines_modified: i64) -> (r: Self)
        ensures
            r.file_path@ == file_path@,
            r.additions == additions,
            r.deletions == deletions,
            r.lines_modified == lines_modified,
    {
        CommitFileChangeRecord { file_path: string_of_str(file_path), additions, deletions, lines_modified }
    }
}

} // verus!
