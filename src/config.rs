use vstd::prelude::*;

use crate::decimal::u64_text;

verus! {

/// Relies on `<u64 as FromStr>::from_str`: an optional `+` and ASCII digits;
/// anything else, or a value out of range, is an error.
#[verifier::external_body]
fn parse_u64(s: &str) -> (r: Option<u64>)
    ensures
        r == u64_text(s@),
{
    s.parse::<u64>().ok()
}

/// Runtime configuration.
#[derive(Clone, Debug, PartialEq, Eq)]
pub struct Config {
    pub stratz_api_token: Option<String>,
    pub polymarket_api_url: String,
    pub opendota_api_url: String,
    /// Seconds between market scans.
    pub polymarket_scan_interval: u64,
    /// Seconds between live-match polls.
    pub live_match_poll_interval: u64,
    pub database_url: String,
}

/// The raw settings, as found in the environment.
#[derive(Clone, Debug, PartialEq, Eq)]
pub struct ConfigSource {
    pub stratz_api_token: Option<String>,
    pub polymarket_api_url: Option<String>,
    pub opendota_api_url: Option<String>,
    pub polymarket_scan_interval: Option<String>,
    pub live_match_poll_interval: Option<String>,
    pub database_url: Option<String>,
}

#[derive(Clone, Copy, Debug, PartialEq, Eq, Structural)]
pub enum ConfigError {
    /// The scan interval is not a whole number of seconds.
    InvalidScanInterval,
    /// The poll interval is not a whole number of seconds.
    InvalidPollInterval,
}

pub open spec fn text_or(v: Option<String>, default: Seq<char>) -> Seq<char> {
    match v {
        Some(s) => s@,
        None => default,
    }
}

/// The interval that a setting gives, with its default when absent.
pub open spec fn interval_of(v: Option<String>, default: u64) -> Option<u64> {
    match v {
        Some(s) => u64_text(s@),
        None => Some(default),
    }
}

pub const DEFAULT_SCAN_INTERVAL: u64 = 300;

pub const DEFAULT_POLL_INTERVAL: u64 = 5;

fn text_or_default(v: &Option<String>, default: &str) -> (r: String)
    ensures
        r@ == text_or(*v, default@),
{
    match v {
        Some(s) => s.clone(),
        None => String::from_str(default),
    }
}

fn interval_or_default(v: &Option<String>, default: u64) -> (r: Option<u64>)
    ensures
        r == interval_of(*v, default),
{
    match v {
        Some(s) => parse_u64(s.as_str()),
        None => Some(default),
    }
}

impl Config {
    /// The configuration that the settings give: each absent setting takes its
    /// default, and an interval that is not a whole number is an error.
    pub fn from_source(src: &ConfigSource) -> (r: Result<Config, ConfigError>)
        ensures
            interval_of(src.polymarket_scan_interval, DEFAULT_SCAN_INTERVAL) is None ==> r
                == Err::<Config, ConfigError>(ConfigError::InvalidScanInterval),
            interval_of(src.polymarket_scan_interval, DEFAULT_SCAN_INTERVAL) is Some && interval_of(
                src.live_match_poll_interval,
                DEFAULT_POLL_INTERVAL,
            ) is None ==> r == Err::<Config, ConfigError>(ConfigError::InvalidPollInterval),
            r is Ok <==> interval_of(src.polymarket_scan_interval, DEFAULT_SCAN_INTERVAL) is Some
                && interval_of(src.live_match_poll_interval, DEFAULT_POLL_INTERVAL) is Some,
            r matches Ok(c) ==> {
                &&& c.stratz_api_token == src.stratz_api_token
                &&& c.polymarket_api_url@ == text_or(
                    src.polymarket_api_url,
                    "https://gamma-api.polymarket.com"@,
                )
                &&& c.opendota_api_url@ == text_or(src.opendota_api_url, "https://api.opendota.com/api"@)
                &&& c.polymarket_scan_interval == interval_of(
                    src.polymarket_scan_interval,
                    DEFAULT_SCAN_INTERVAL,
                )->0
                &&& c.live_match_poll_interval == interval_of(
                    src.live_match_poll_interval,
                    DEFAULT_POLL_INTERVAL,
                )->0
                &&& c.database_url@ == text_or(src.database_url, "sqlite:data/signals.db"@)
            },
    {
        let scan = match interval_or_default(&src.polymarket_scan_interval, DEFAULT_SCAN_INTERVAL) {
            Some(v) => v,
            None => {
                return Err(ConfigError::InvalidScanInterval);
            },
        };
        let poll = match interval_or_default(&src.live_match_poll_interval, DEFAULT_POLL_INTERVAL) {
            Some(v) => v,
            None => {
                return Err(ConfigError::InvalidPollInterval);
            },
        };
        Ok(
            Config {
                stratz_api_token: crate::models::copy_opt_text(&src.stratz_api_token),
                polymarket_api_url: text_or_default(
                    &src.polymarket_api_url,
                    "https://gamma-api.polymarket.com",
                ),
                opendota_api_url: text_or_default(&src.opendota_api_url, "https://api.opendota.com/api"),
                polymarket_scan_interval: scan,
                live_match_poll_interval: poll,
                database_url: text_or_default(&src.database_url, "sqlite:data/signals.db"),
            },
        )
    }
}

} // verus!
