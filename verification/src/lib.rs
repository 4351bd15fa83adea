//! Verified core of `ometa`, a command-line client for the OpenMetadata catalog.
//!
//! The library holds the parts of the tool that decide and compute: URL and
//! query construction, percent-encoding, the retry policy applied to HTTP
//! responses, configuration precedence, and the reading of catalog JSON into
//! the rows and trees that the commands print.

pub mod text;
pub mod json;
pub mod client;
pub mod config;
pub mod commands;
pub mod spec;
