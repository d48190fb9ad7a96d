//! Application configuration, as plain values.
//!
//! The unverified shell parses the configuration file and hands the values
//! over in these types.

use vstd::prelude::*;

use crate::aweme::AwemeConfig;
use crate::metadata_store::RedisConfig;
use crate::site_validator::SupportedSites;

verus! {

/// Token of the chat-bot front end.
#[derive(Debug, Clone)]
pub struct TelegramConfig {
    pub token: String,
}

impl TelegramConfig {
    pub fn new(token: String) -> (r: TelegramConfig)
        ensures
            r.token == token,
    {
        TelegramConfig { token }
    }
}

/// Endpoint and credential of the telemetry sink, if any.
#[derive(Debug, Clone)]
pub struct TelemetryConfig {
    pub endpoint: Option<String>,
    pub api_key: Option<String>,
}

/// The whole application configuration.
#[derive(Debug)]
pub struct Config {
    pub telegram: TelegramConfig,
    pub redis: RedisConfig,
    pub supported_sites: SupportedSites,
    pub telemetry: Option<TelemetryConfig>,
    pub aweme_api: Option<AwemeConfig>,
}

/// Telemetry may only be initialized when an endpoint and an api key are both
/// present and neither is empty.
pub fn is_telemetry_config_valid(telemetry_config: &Option<TelemetryConfig>) -> (r: bool)
    ensures
        r == match telemetry_config {
            Some(t) => {
                &&& t.endpoint matches Some(e) && e@.len() > 0
                &&& t.api_key matches Some(a) && a@.len() > 0
            },
            None => false,
        },
{
    match telemetry_config {
        Some(t) => match (&t.endpoint, &t.api_key) {
            (Some(e), Some(a)) => !e.as_str().is_empty() && !a.as_str().is_empty(),
            _ => false,
        },
        None => false,
    }
}

} // verus!
