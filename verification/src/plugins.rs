//! Plugins: which files are plugins, and the request counter of the example
//! plugin.

pub mod ip_log;
pub mod loader;
