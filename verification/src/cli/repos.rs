//! Which repositories a command works on.
use vstd::prelude::*;

use crate::text::{string_of_str, string_views};

verus! {

broadcast use vstd::string::group_string_axioms;

/// Merge subcommand-level and global `--repo` flags into an optional initial set for the
/// interactive interface: the subcommand's when given, else the global ones, and `None` when
/// neither gives any.
pub fn initial_repos(subcommand_repos: Vec<String>, global_repos: Vec<String>) -> (r: Option<Vec<String>>)
    ensures
        match r {
            Some(v) => v@.len() > 0 && v@ == if subcommand_repos@.len() == 0 {
                global_repos@
            } else {
                subcommand_repos@
            },
            None => subcommand_repos@.len() == 0 && global_repos@.len() == 0,
        },
{
    let repos = if subcommand_repos.len() == 0 { global_repos } else { subcommand_repos };
    if repos.len() == 0 {
        None
    } else {
        Some(repos)
    }
}

/// If no `--repo` flags were given, default to the current directory.
pub fn default_repos(repos: Vec<String>) -> (r: Vec<String>)
    ensures
        repos@.len() == 0 ==> string_views(r@) == seq!["."@],
        repos@.len() > 0 ==> r@ == repos@,
{
    if repos.len() == 0 {
        let mut v: Vec<String> = Vec::new();
        v.push(string_of_str("."));
        assert(string_views(v@) =~= seq!["."@]);
        v
    } else {
        repos
    }
}

} // verus!
