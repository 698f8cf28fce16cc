//! What the feed handler is configured with.

use vstd::prelude::*;

verus! {

/// Where to connect, with which credentials, and what to subscribe to.
#[derive(Debug, Clone)]
pub struct DeribitConfig {
    pub url: String,
    pub key: String,
    pub secret: String,
    pub channels: Vec<String>,
}

/// The whole configuration.
#[derive(Debug, Clone)]
pub struct Config {
    pub deribit: DeribitConfig,
}

} // verus!
