//! Records kept in the analysis database.
pub mod metadata;
pub mod models;
pub mod path;
pub mod scan;
pub mod snapshot;
pub mod sqlite;
