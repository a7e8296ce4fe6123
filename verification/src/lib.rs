//! Fetch pipeline for historical daily trading aggregates.
//!
//! The library holds everything that can be checked: building and parsing
//! the request URL, deciding what an invocation should do, and decoding the
//! provider's JSON reply against its fixed schema. The surrounding binary
//! performs the one HTTP request and hands the body back as plain text.

pub mod cli;
pub mod error;
pub mod fetch;
pub mod json;
pub mod schema;
pub mod url;
