//! Where the database lives.
use vstd::prelude::*;

use crate::text::{push_str, str_chars, string_from_chars};

verus! {

broadcast use vstd::string::group_string_axioms;

/// `home` joined with `.repolyze/repolyze.db` as `PathBuf::join` joins: with a `/` between
/// them unless `home` is empty or already ends in one.
pub open spec fn spec_database_path(home: Seq<char>) -> Seq<char> {
    if home.len() == 0 || home.last() == '/' {
        home + ".repolyze/repolyze.db"@
    } else {
        home + "/.repolyze/repolyze.db"@
    }
}

/// The database path under a home directory: `<home>/.repolyze/repolyze.db`.
pub fn database_path_from_home(home: &str) -> (r: String)
    ensures
        r@ == spec_database_path(home@),
{
    let mut v = str_chars(home);
    if v.len() == 0 || v[v.len() - 1] == '/' {
        push_str(&mut v, ".repolyze/repolyze.db");
    } else {
        push_str(&mut v, "/.repolyze/repolyze.db");
    }
    string_from_chars(&v)
}

} // verus!
