//! The errors of the library.
use vstd::prelude::*;

use crate::text::{push_all, push_str, str_chars, string_from_chars};

verus! {

broadcast use vstd::string::group_string_axioms;

/// What can go wrong while resolving, reading or analysing repositories.
#[derive(Debug, Clone)]
pub enum RepolyzeError {
    PathNotFound(String),
    NotAGitRepository(String),
    GitCommand(String),
    Parse(String),
    Io(String),
    Store(String),
    NoRepositoriesFound(String),
}

/// The text that precedes the payload in an error's message.
pub open spec fn error_prefix(e: RepolyzeError) -> Seq<char> {
    match e {
        RepolyzeError::PathNotFound(_) => "path does not exist: "@,
        RepolyzeError::NotAGitRepository(_) => "not a git repository: "@,
        RepolyzeError::GitCommand(_) => "git command failed: "@,
        RepolyzeError::Parse(_) => "parse error: "@,
        RepolyzeError::Io(_) => "io error: "@,
        RepolyzeError::Store(_) => "store error: "@,
        RepolyzeError::NoRepositoriesFound(_) => "no git repositories found under directory: "@,
    }
}

/// The payload of an error.
pub open spec fn error_payload(e: RepolyzeError) -> Seq<char> {
    match e {
        RepolyzeError::PathNotFound(s) => s@,
        RepolyzeError::NotAGitRepository(s) => s@,
        RepolyzeError::GitCommand(s) => s@,
        RepolyzeError::Parse(s) => s@,
        RepolyzeError::Io(s) => s@,
        RepolyzeError::Store(s) => s@,
        RepolyzeError::NoRepositoriesFound(s) => s@,
    }
}

impl RepolyzeError {
    /// The error's message, as its `Display` text reads.
    pub fn message(&self) -> (r: String)
        ensures
            r@ == error_prefix(*self) + error_payload(*self),
    {
        let mut v: Vec<char> = Vec::new();
        let payload = match self {
            RepolyzeError::PathNotFound(s) => {
                push_str(&mut v, "path does not exist: ");
                s
            },
            RepolyzeError::NotAGitRepository(s) => {
                push_str(&mut v, "not a git repository: ");
                s
            },
            RepolyzeError::GitCommand(s) => {
                push_str(&mut v, "git command failed: ");
                s
            },
            RepolyzeError::Parse(s) => {
                push_str(&mut v, "parse error: ");
                s
            },
            RepolyzeError::Io(s) => {
                push_str(&mut v, "io error: ");
                s
            },
            RepolyzeError::Store(s) => {
                push_str(&mut v, "store error: ");
                s
            },
            RepolyzeError::NoRepositoriesFound(s) => {
                push_str(&mut v, "no git repositories found under directory: ");
                s
            },
        };
        let p = str_chars(payload.as_str());
        push_all(&mut v, &p);
        string_from_chars(&v)
    }
}

} // verus!
