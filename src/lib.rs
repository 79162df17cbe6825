//! Correlates a prediction-market quote stream with live esports match
//! telemetry: team-name resolution, building-state decoding, update
//! classification, a state-based win-probability model, and the decisions of
//! the market scanner, live fetcher and signal processor loops.
//!
//! Probabilities, odds, edges and confidences are exact multiples of
//! `1 / PROB_SCALE`; the library holds no floating-point value.

pub mod building;
pub mod config;
pub mod decimal;
pub mod fetcher;
pub mod historical;
pub mod live_data;
pub mod markets;
pub mod models;
pub mod polymarket;
pub mod processor;
pub mod resolver;
pub mod signal;
pub mod stratz;
pub mod text;
pub mod urls;

pub use building::parse_building_state;
pub use config::{Config, ConfigError, ConfigSource};
pub use fetcher::collect_updates;
pub use historical::{
    build_historical_match, parse_count, HistoricalMatch, LeagueInfo, MatchDetails, OpenDotaMatch,
    OpenDotaTeam, ProMatch, TeamInfo,
};
pub use live_data::{convert_match, is_pro_match, select_pro_matches, OpenDotaLiveMatch};
pub use markets::{ActiveMarkets, LiveMatchCache};
pub use models::{
    LiveMatchState, MatchUpdate, PolymarketMarket, TeamState, Timestamp, PROB_SCALE,
};
pub use polymarket::{
    active_event_ids, convert_market, event_markets, EventResponse, MarketResponse, SeriesEvent,
};
pub use processor::{
    calculate_confidence, calculate_win_probability, detect_signal_type, evaluate_update,
    generate_reason,
};
pub use resolver::{MatchResult, TeamAliasEntry, TeamAliases, TeamResolver};
pub use signal::{parse_signal_strength, parse_signal_type, Signal, SignalStrength, SignalType};
