//! An alternative, flat configuration model: global settings plus one list
//! of upstream endpoints carrying weights and chain identifiers.
//!
//! The running proxy is configured through `registry::Config`; this shape is
//! kept for configurations written in the flat style.

use vstd::prelude::*;

verus! {

/// A whole flat configuration: the settings block and the upstream list.
pub struct Config {
    pub settings: Settings,
    pub rpc_urls: RpcUrls,
}

/// Global knobs of a flat configuration.
pub struct Settings {
    /// How many attempts one request may spend.
    pub retry_count: u32,
    /// Outbound request timeout, in seconds.
    pub timeout: u32,
    /// Log verbosity label.
    pub log_level: String,
}

/// The upstream list of a flat configuration.
pub struct RpcUrls {
    pub server: Vec<RpcServer>,
}

/// One upstream endpoint of a flat configuration.
pub struct RpcServer {
    /// Absolute URL of the endpoint.
    pub url: String,
    /// Relative selection weight.
    pub weight: u32,
    /// The chain this endpoint serves.
    pub chain_id: String,
    /// Cap on concurrent connections to this endpoint.
    pub max_connections: u32,
}

} // verus!
