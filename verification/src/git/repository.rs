//! The checked-out commit and branch of a repository.
use vstd::prelude::*;

use crate::text::{str_chars, string_of_range, trim_range, trim_seq};

verus! {

broadcast use vstd::string::group_string_axioms;

/// The commit and branch that a working tree has checked out.
#[derive(Debug, Clone)]
pub struct HeadMetadata {
    pub head_commit_hash: String,
    pub branch_name: String,
}

/// The text of a command's output with surrounding whitespace removed.
pub fn trimmed(s: &str) -> (r: String)
    ensures
        r@ == trim_seq(s@),
{
    let c = str_chars(s);
    assert(c@.subrange(0, c.len() as int) =~= c@);
    let (a, b) = trim_range(&c, 0, c.len());
    string_of_range(&c, a, b)
}

/// The head metadata from the output of `git rev-parse HEAD` and `git branch --show-current`.
pub fn head_metadata_from(rev_parse_output: &str, branch_output: &str) -> (r: HeadMetadata)
    ensures
        r.head_commit_hash@ == trim_seq(rev_parse_output@),
        r.branch_name@ == trim_seq(branch_output@),
{
    HeadMetadata { head_commit_hash: trimmed(rev_parse_output), branch_name: trimmed(branch_output) }
}

} // verus!
