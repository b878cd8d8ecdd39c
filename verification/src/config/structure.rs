//! The configuration of the proxy.

use vstd::prelude::*;

verus! {

/// Where requests are forwarded.
pub struct ProxyConfig {
    pub target: String,
    pub port: u16,
    pub path: String,
}

/// Where the proxy listens.
pub struct WebConfig {
    pub port: u16,
    pub hostname: String,
}

/// Optional features.
pub struct FeaturesConfig {
    pub log: bool,
}

/// The whole configuration.
pub struct Config {
    pub proxy_config: ProxyConfig,
    pub web_config: WebConfig,
    pub features_config: FeaturesConfig,
}

} // verus!
