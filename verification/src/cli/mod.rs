//! The command line: its arguments and the rules that combine them.
pub mod args;
pub mod repos;
pub mod run;
