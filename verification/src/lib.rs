//! LoadThing: a small HTTP reverse proxy configured by a Nix file, with a
//! table logger, error reporting and a plugin interface.  This crate holds
//! the proxy's logic; the program around it lives in `app/`.

pub mod text;
pub mod helpers;
pub mod network;
pub mod config;
pub mod host_proxy;
pub mod plugins;
