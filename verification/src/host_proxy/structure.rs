//! The configuration of the forward proxy.

use vstd::prelude::*;

verus! {

/// Where requests are forwarded.
#[derive(Clone)]
pub struct ProxyConfig {
    pub target: String,
    pub port: u16,
    pub path: String,
}

/// Where the proxy listens.
#[derive(Clone)]
pub struct WebConfig {
    pub port: u16,
    pub hostname: String,
}

/// What the processor prints of each request.
#[derive(Clone, Copy)]
pub struct FeaturesConfig {
    pub log: bool,
    pub time: bool,
}

/// The whole configuration.
#[derive(Clone)]
pub struct Config {
    pub proxy_config: ProxyConfig,
    pub web_config: WebConfig,
    pub features_config: FeaturesConfig,
}

} // verus!
