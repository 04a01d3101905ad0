//! The settings of a sink.

use vstd::prelude::*;

verus! {

/// The interval after which the API key is read again, where the settings
/// name none: thirty seconds.
pub const DEFAULT_API_KEY_RELOAD_SECONDS: u64 = 30;

/// Controls batching behavior. Times are in whole seconds.
#[derive(Clone, Debug, PartialEq, Eq)]
pub struct BatchSettings {
    /// The most events that one batch holds.
    pub max_events: Option<u32>,
    /// The most bytes that one batch holds.
    pub max_bytes: Option<u32>,
    /// The longest that a batch waits to be filled, in seconds.
    pub max_timeout: u64,
}

/// The settings of a sink. Times are in whole seconds.
#[derive(Clone, Debug, PartialEq, Eq)]
pub struct BasicSinkConfig {
    /// The API endpoint to send requests to.
    pub api_endpoint: String,
    /// How events are gathered into batches.
    pub batch: BatchSettings,
    /// How often to reload the API key from the configuration service, in
    /// seconds.
    pub api_key_reload_interval: u64,
}

/// The interval after which the API key is read again, where the settings
/// name none.
pub fn default_api_key_reload_interval() -> (seconds: u64)
    ensures
        seconds == DEFAULT_API_KEY_RELOAD_SECONDS,
{
    DEFAULT_API_KEY_RELOAD_SECONDS
}

impl BasicSinkConfig {
    /// The settings for `api_endpoint` and `batch`, with the default interval
    /// for reading the API key again.
    pub fn new(api_endpoint: String, batch: BatchSettings) -> (config: BasicSinkConfig)
        ensures
            config.api_endpoint == api_endpoint,
            config.batch == batch,
            config.api_key_reload_interval == DEFAULT_API_KEY_RELOAD_SECONDS,
    {
        BasicSinkConfig {
            api_endpoint,
            batch,
            api_key_reload_interval: default_api_key_reload_interval(),
        }
    }
}

} // verus!
