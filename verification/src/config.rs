//! The proxy's configuration and how it is read from a Nix file.

pub mod parser;
pub mod structure;
