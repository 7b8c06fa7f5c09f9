use vstd::prelude::*;

pub mod analytics;
pub mod arith;
pub mod chart_util;
pub mod cli;
pub mod date_util;
pub mod effort_fit;
pub mod error;
pub mod git;
pub mod github;
pub mod metrics;
pub mod model;
pub mod paths;
pub mod report;
pub mod settings;
pub mod store;
pub mod tally;
pub mod text;
pub mod tui;
pub mod users;

verus! {

} // verus!
