//! Facts read from the output of the `git` command line tool.
pub mod parse;
pub mod activity;
pub mod contributions;
pub mod branches;
pub mod repository;
