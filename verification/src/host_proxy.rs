//! The forward proxy that the server binary runs: it forwards each request to
//! the host its `Host` header names, and reports requests to a processor.

pub mod data;
pub mod error;
pub mod misc;
pub mod processor;
pub mod proxy;
pub mod relay;
pub mod structure;
