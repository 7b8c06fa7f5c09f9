//! Plain-text and Markdown reports.
pub mod authors;
pub mod document;
pub mod markdown;
pub mod table;
