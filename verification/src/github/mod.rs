//! Facts read from the GitHub REST API.
pub mod activity;
pub mod api_types;
pub mod client;
pub mod contributors;
