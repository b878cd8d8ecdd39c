//! Helpers shared by the proxy: terminal colours, error reporting, request
//! records and the table logger.

pub mod ansi;
pub mod data;
pub mod error;
pub mod logger;
