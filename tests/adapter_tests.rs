use esport_signal::decimal::read_decimal;
use esport_signal::stratz::{
    convert_match_data, count_barracks_killed, count_towers_killed, StratzBuildingState,
    StratzLiveMatch, StratzTeam,
};
use esport_signal::polymarket::{decode_end_date, decode_liquidity};
use esport_signal::text::{decimal_text, signed_text};
use esport_signal::urls::{event_url, pro_matches_url, series_url, team_search_url};
use esport_signal::{
    active_event_ids, build_historical_match, convert_market, convert_match, event_markets,
    is_pro_match, parse_building_state, parse_count, select_pro_matches, ActiveMarkets, Config,
    ConfigError, ConfigSource, EventResponse, LeagueInfo, MarketResponse, MatchDetails,
    OpenDotaLiveMatch, PolymarketMarket, ProMatch, SeriesEvent, TeamInfo, Timestamp, PROB_SCALE,
};

fn now() -> Timestamp {
    Timestamp { unix_seconds: 1_714_564_800, nanos: 5 }
}

fn raw_live(id: &str) -> OpenDotaLiveMatch {
    OpenDotaLiveMatch {
        match_id: id.to_string(),
        league_id: 0,
        team_name_radiant: None,
        team_name_dire: None,
        team_id_radiant: None,
        team_id_dire: None,
        radiant_score: None,
        dire_score: None,
        radiant_lead: None,
        game_time: None,
        building_state: None,
    }
}

fn raw_market(outcomes: &str, prices: &str) -> MarketResponse {
    MarketResponse {
        condition_id: "0xabc".to_string(),
        question: "Dota 2: Team Spirit vs OG (BO3)".to_string(),
        outcomes: outcomes.to_string(),
        outcome_prices: prices.to_string(),
        liquidity: None,
        liquidity_num_cents: None,
        active: true,
        closed: false,
        end_date_iso: None,
        sports_market_type: Some("moneyline".to_string()),
    }
}

fn pm(id: &str, a: &str) -> PolymarketMarket {
    PolymarketMarket {
        condition_id: id.to_string(),
        question: String::new(),
        team_a: a.to_string(),
        team_b: "B".to_string(),
        team_a_odds: 0,
        team_b_odds: PROB_SCALE,
        liquidity_cents: 0,
        end_date: None,
        active: true,
    }
}

#[test]
fn building_state_absent_is_intact() {
    assert_eq!(parse_building_state(None), (0, 0, 0, 0));
}

#[test]
fn building_state_round_trip_example() {
    let (r_tow, r_rax, d_tow, d_rax) = (0b101i64, 0b111111i64, 0x7FFi64, 0b0011i64);
    let packed = r_tow | (r_rax << 11) | (d_tow << 17) | (d_rax << 28);
    assert_eq!(packed, 1_073_739_781);
    assert_eq!(parse_building_state(Some(packed)), (9, 0, 0, 4));
}

#[test]
fn building_state_all_bits_set() {
    // The upper two dire barracks bits do not fit in 32 bits.
    assert_eq!(parse_building_state(Some(0xFFFF_FFFF)), (0, 0, 0, 2));
    assert_eq!(parse_building_state(Some(0)), (11, 11, 6, 6));
}

#[test]
fn convert_match_defaults_and_crossing() {
    let mut raw = raw_live("8123456789");
    raw.building_state = Some(1_073_739_781);
    raw.radiant_score = Some(12);
    raw.radiant_lead = Some(-3400);
    raw.game_time = Some(-30);
    let s = convert_match(raw, now());
    assert_eq!(s.match_id, 8_123_456_789);
    assert_eq!(s.radiant.name, "Radiant");
    assert_eq!(s.dire.name, "Dire");
    assert_eq!(s.radiant.kills, 12);
    assert_eq!(s.dire.kills, 0);
    assert_eq!(s.radiant.towers_killed, 0);
    assert_eq!(s.radiant.barracks_killed, 4);
    assert_eq!(s.dire.towers_killed, 9);
    assert_eq!(s.dire.barracks_killed, 0);
    assert_eq!(s.gold_lead, -3400);
    assert_eq!(s.game_time, -30);
    assert!(s.is_live);
    assert_eq!(s.league_name, None);
    assert_eq!(s.updated_at, now());
    assert_eq!(convert_match(raw_live("not a number"), now()).match_id, 0);
    assert_eq!(convert_match(raw_live("+12"), now()).match_id, 12);
    assert_eq!(convert_match(raw_live("-5"), now()).match_id, -5);
    assert_eq!(convert_match(raw_live("99999999999999999999"), now()).match_id, 0);
    assert_eq!(convert_match(raw_live(" 7"), now()).match_id, 0);
}

#[test]
fn pro_filter_keeps_league_or_named_radiant() {
    let mut league = raw_live("1");
    league.league_id = 15000;
    let mut named = raw_live("2");
    named.team_name_radiant = Some("Tundra".to_string());
    let mut empty_name = raw_live("3");
    empty_name.team_name_radiant = Some(String::new());
    let pub_match = raw_live("4");
    assert!(is_pro_match(&league));
    assert!(is_pro_match(&named));
    assert!(!is_pro_match(&empty_name));
    assert!(!is_pro_match(&pub_match));
    let kept = select_pro_matches(vec![league, named, empty_name, pub_match], now());
    let ids: Vec<i64> = kept.iter().map(|s| s.match_id).collect();
    assert_eq!(ids, vec![1, 2]);
    assert_eq!(kept[1].radiant.name, "Tundra");
}

fn units(text: &str, scale: u64, cap: u128) -> Option<(bool, Option<u128>, bool)> {
    read_decimal(text, scale, cap).map(|r| (r.negative, r.units, r.exact))
}

#[test]
fn decimal_reading() {
    let scale = PROB_SCALE as u64;
    let cap = PROB_SCALE as u128;
    assert_eq!(units("0.545", scale, cap), Some((false, Some(261_600_000), true)));
    assert_eq!(units("1", scale, cap), Some((false, Some(480_000_000), true)));
    assert_eq!(units(".5", scale, cap), Some((false, Some(240_000_000), true)));
    assert_eq!(units("5.", scale, cap), Some((false, None, true)));
    assert_eq!(units("5e-1", scale, cap), Some((false, Some(240_000_000), true)));
    assert_eq!(units("+0.5", scale, cap), Some((false, Some(240_000_000), true)));
    assert_eq!(units("0.05E1", scale, cap), Some((false, Some(240_000_000), true)));
    assert_eq!(units("-0.25", scale, cap), Some((true, Some(120_000_000), true)));
    assert_eq!(units("1234.567", 100, u64::MAX as u128), Some((false, Some(123_456), false)));
    assert_eq!(units("1.5e3", 100, u64::MAX as u128), Some((false, Some(150_000), true)));
    assert_eq!(
        units("0.500000000000000000000000000000000000000001", scale, cap),
        Some((false, Some(240_000_000), false))
    );
    assert_eq!(units("1e400", scale, cap), Some((false, None, true)));
    assert_eq!(units("3e-400", scale, cap), Some((false, Some(0), false)));
    assert_eq!(
        units("7e-99999999999999999999999999999999999999", scale, cap),
        Some((false, Some(0), false))
    );
    assert_eq!(units("0e99999999999999999999999999999999999999", scale, cap), Some((false, Some(0), true)));
    assert_eq!(units("1e-9", scale, cap), Some((false, Some(0), false)));
    for bad in [".", "", "0.5.1", "abc", "e5", "5e", "5e+", "--1", "1 ", "+", "-.", "0x1", "inf", "NaN"] {
        assert!(read_decimal(bad, scale, cap).is_none(), "{:?}", bad);
    }
}

#[test]
fn convert_market_decodes_outcomes() {
    let m = convert_market(&raw_market("[\"Team Spirit\", \" OG \"]", "[\"0.6\", \"0.4\"]")).unwrap();
    assert_eq!(m.team_a, "Team Spirit");
    assert_eq!(m.team_b, "OG");
    assert_eq!(m.team_a_odds, 288_000_000);
    assert_eq!(m.team_b_odds, 192_000_000);
    assert_eq!(m.condition_id, "0xabc");
    assert_eq!(m.liquidity_cents, 0);
    assert_eq!(m.end_date, None);
    assert!(m.active);
}

#[test]
fn convert_market_reads_any_real_notation() {
    let m = convert_market(&raw_market("[\"A\", \"B\"]", "[\"5e-1\", \"+0.5E0\"]")).unwrap();
    assert_eq!(m.team_a_odds, 240_000_000);
    assert_eq!(m.team_b_odds, 240_000_000);
    let edge = convert_market(&raw_market("[\"A\", \"B\"]", "[\"1.000\", \"-0\"]")).unwrap();
    assert_eq!(edge.team_a_odds, PROB_SCALE);
    assert_eq!(edge.team_b_odds, 0);
    let long = convert_market(&raw_market(
        "[\"A\", \"B\"]",
        "[\"0.33333333333333333333333333333333333333\", \"0.66666666666666666666666666666666666667\"]",
    ))
    .unwrap();
    assert_eq!(long.team_a_odds, 159_999_999);
    assert_eq!(long.team_b_odds, 320_000_000);
}

#[test]
fn convert_market_rejects_bad_outcomes() {
    assert!(convert_market(&raw_market("[\"A\", \"B\", \"C\"]", "[\"0.3\", \"0.3\", \"0.4\"]")).is_none());
    assert!(convert_market(&raw_market("not json", "[\"0.6\", \"0.4\"]")).is_none());
    assert!(convert_market(&raw_market("[\"A\", \"B\"]", "[\"0.6\", \"x\"]")).is_none());
    assert!(convert_market(&raw_market("[\"A\", \"B\"]", "[\"1.5\", \"0.4\"]")).is_none());
    assert!(convert_market(&raw_market("[\"A\", \"B\"]", "[\"1.0000000001\", \"0\"]")).is_none());
    assert!(convert_market(&raw_market("[\"A\", \"B\"]", "[\"-0.1\", \"0.4\"]")).is_none());
}

#[test]
fn liquidity_and_end_date_decoding() {
    let mut m = raw_market("[\"A\", \"B\"]", "[\"0.5\", \"0.5\"]");
    assert_eq!(decode_liquidity(&m), 0);
    m.liquidity = Some("1234.56".to_string());
    assert_eq!(decode_liquidity(&m), 123_456);
    m.liquidity = Some("2.5e4".to_string());
    assert_eq!(decode_liquidity(&m), 2_500_000);
    m.liquidity = Some("-3.019".to_string());
    assert_eq!(decode_liquidity(&m), -301);
    m.liquidity = Some("9e30".to_string());
    assert_eq!(decode_liquidity(&m), 0);
    m.liquidity_num_cents = Some(99);
    assert_eq!(decode_liquidity(&m), 99);
    assert_eq!(
        decode_end_date(&Some("2024-05-01T12:00:00Z".to_string())),
        Some(Timestamp { unix_seconds: 1_714_564_800, nanos: 0 })
    );
    assert_eq!(
        decode_end_date(&Some("2024-05-01T14:00:00+02:00".to_string())),
        Some(Timestamp { unix_seconds: 1_714_564_800, nanos: 0 })
    );
    assert_eq!(
        decode_end_date(&Some("2024-05-01".to_string())),
        Some(Timestamp { unix_seconds: 1_714_521_600, nanos: 0 })
    );
    assert_eq!(decode_end_date(&Some("soon".to_string())), None);
    assert_eq!(decode_end_date(&None), None);
}

#[test]
fn event_filtering() {
    let events = vec![
        SeriesEvent { id: "1".to_string(), active: true, closed: false },
        SeriesEvent { id: "2".to_string(), active: true, closed: true },
        SeriesEvent { id: "3".to_string(), active: false, closed: false },
        SeriesEvent { id: "4".to_string(), active: true, closed: false },
    ];
    assert_eq!(active_event_ids(&events), vec!["1".to_string(), "4".to_string()]);

    let good = raw_market("[\"A\", \"B\"]", "[\"0.5\", \"0.5\"]");
    let mut handicap = good.clone();
    handicap.sports_market_type = Some("handicap".to_string());
    let mut closed = good.clone();
    closed.closed = true;
    let mut untyped = good.clone();
    untyped.sports_market_type = None;
    let event = EventResponse {
        id: "1".to_string(),
        title: "A vs B".to_string(),
        active: true,
        closed: false,
        markets: vec![handicap, good.clone(), closed, untyped],
    };
    let kept = event_markets(&event);
    assert_eq!(kept.len(), 1);
    assert_eq!(kept[0].team_a, "A");
    let mut shut = event.clone();
    shut.closed = true;
    assert!(event_markets(&shut).is_empty());
}

#[test]
fn scan_replaces_whole_set() {
    let mut markets = ActiveMarkets::new();
    assert!(markets.is_empty());
    markets.replace_all(vec![pm("x", "first"), pm("y", "B"), pm("x", "second")]);
    assert_eq!(markets.len(), 2);
    assert_eq!(markets.get(&"x".to_string()).unwrap().team_a, "second");
    assert_eq!(markets.market_at(0).condition_id, "x");
    markets.replace_all(vec![pm("z", "C")]);
    assert_eq!(markets.len(), 1);
    assert!(markets.get(&"x".to_string()).is_none());
    assert!(markets.get(&"y".to_string()).is_none());
    assert_eq!(markets.get(&"z".to_string()).unwrap().team_a, "C");
}

#[test]
fn config_defaults_and_errors() {
    let empty = ConfigSource {
        stratz_api_token: None,
        polymarket_api_url: None,
        opendota_api_url: None,
        polymarket_scan_interval: None,
        live_match_poll_interval: None,
        database_url: None,
    };
    let c = Config::from_source(&empty).unwrap();
    assert_eq!(c.polymarket_api_url, "https://gamma-api.polymarket.com");
    assert_eq!(c.opendota_api_url, "https://api.opendota.com/api");
    assert_eq!(c.polymarket_scan_interval, 300);
    assert_eq!(c.live_match_poll_interval, 5);
    assert_eq!(c.database_url, "sqlite:data/signals.db");
    let mut set = empty.clone();
    set.polymarket_scan_interval = Some("60".to_string());
    set.database_url = Some("sqlite::memory:".to_string());
    let c = Config::from_source(&set).unwrap();
    assert_eq!(c.polymarket_scan_interval, 60);
    set.live_match_poll_interval = Some("+2".to_string());
    assert_eq!(Config::from_source(&set).unwrap().live_match_poll_interval, 2);
    assert_eq!(c.database_url, "sqlite::memory:");
    let mut bad_scan = empty.clone();
    bad_scan.polymarket_scan_interval = Some("five".to_string());
    assert_eq!(Config::from_source(&bad_scan), Err(ConfigError::InvalidScanInterval));
    let mut bad_poll = empty.clone();
    bad_poll.live_match_poll_interval = Some("-1".to_string());
    assert_eq!(Config::from_source(&bad_poll), Err(ConfigError::InvalidPollInterval));
}

#[test]
fn historical_record_building() {
    let pro = ProMatch {
        match_id: 77,
        radiant_team_id: None,
        radiant_name: Some("Spirit".to_string()),
        dire_team_id: None,
        dire_name: Some("OG".to_string()),
        radiant_win: Some(true),
        duration: Some(2000),
        start_time: Some(1),
        league_name: Some("TI".to_string()),
    };
    let details = MatchDetails {
        match_id: 77,
        radiant_win: Some(true),
        duration: None,
        start_time: Some(5),
        radiant_team: Some(TeamInfo { team_id: Some(1), name: Some("Team Spirit".to_string()), tag: None }),
        dire_team: Some(TeamInfo { team_id: Some(2), name: None, tag: None }),
        league: Some(LeagueInfo { leagueid: Some(3), name: None }),
        radiant_gold_adv: Some(vec![100, -200]),
        radiant_xp_adv: Some(vec![1]),
    };
    let h = build_historical_match(&pro, &details, "now".to_string()).unwrap();
    assert_eq!(h.radiant_team.as_deref(), Some("Team Spirit"));
    assert_eq!(h.dire_team.as_deref(), Some("OG"));
    assert_eq!(h.league_name.as_deref(), Some("TI"));
    assert_eq!(h.radiant_gold_adv, "[100,-200]");
    assert_eq!(h.radiant_xp_adv, "[1]");
    assert!(h.radiant_win);
    assert_eq!(h.duration, 0);
    assert_eq!(h.start_time, Some(5));
    assert_eq!(h.fetched_at, "now");
    let mut one = details.clone();
    one.radiant_gold_adv = Some(vec![-7]);
    assert_eq!(build_historical_match(&pro, &one, "now".to_string()).unwrap().radiant_gold_adv, "[-7]");
    let mut no_gold = details.clone();
    no_gold.radiant_gold_adv = Some(vec![]);
    assert!(build_historical_match(&pro, &no_gold, "now".to_string()).is_none());
    let mut no_xp = details.clone();
    no_xp.radiant_xp_adv = None;
    assert!(build_historical_match(&pro, &no_xp, "now".to_string()).is_none());
}

#[test]
fn count_argument() {
    let args = |v: &[&str]| v.iter().map(|s| s.to_string()).collect::<Vec<String>>();
    assert_eq!(parse_count(&args(&["prog", "--count", "50"])), 50);
    assert_eq!(parse_count(&args(&["prog", "-c", "x", "--count", "7"])), 7);
    assert_eq!(parse_count(&args(&["prog", "--count"])), 1000);
    assert_eq!(parse_count(&args(&["prog", "-c", "+7"])), 7);
    assert_eq!(parse_count(&args(&["prog", "-c", "-7"])), 1000);
    assert_eq!(parse_count(&args(&[])), 1000);
}

#[test]
fn url_building() {
    assert_eq!(series_url("https://gamma-api.polymarket.com"), "https://gamma-api.polymarket.com/series/10309");
    assert_eq!(event_url("https://h", "42"), "https://h/events/42");
    assert_eq!(team_search_url("https://h", "Team Spirit&co"), "https://h/search?q=Team%20Spirit%26co");
    assert_eq!(pro_matches_url("https://h", None), "https://h/proMatches");
    assert_eq!(pro_matches_url("https://h", Some(123)), "https://h/proMatches?less_than_match_id=123");
}

#[test]
fn decimal_writing() {
    assert_eq!(decimal_text(0), "0");
    assert_eq!(decimal_text(1234567890123), "1234567890123");
    assert_eq!(signed_text(-45), "-45");
    assert_eq!(signed_text(i64::MIN), i64::MIN.to_string());
}

#[test]
fn graphql_record_conversion() {
    let building = StratzBuildingState {
        radiant_tower_state: Some(0b111_1111),
        dire_tower_state: None,
        radiant_barracks_state: Some(0b11),
        dire_barracks_state: Some(63),
    };
    assert_eq!(count_towers_killed(&Some(building)), (4, 0));
    assert_eq!(count_barracks_killed(&Some(building)), (4, 0));
    assert_eq!(count_towers_killed(&None), (0, 0));
    let raw = StratzLiveMatch {
        match_id: 9,
        game_time: Some(1500),
        radiant_team: Some(StratzTeam { id: Some(1), name: Some("Spirit".to_string()) }),
        dire_team: None,
        league_display_name: Some("TI".to_string()),
        radiant_score: Some(11),
        dire_score: None,
        building_state: Some(building),
        radiant_net_worth: Some(40_000),
        dire_net_worth: Some(43_500),
    };
    let s = convert_match_data(&raw, now());
    assert_eq!(s.radiant.name, "Spirit");
    assert_eq!(s.radiant.team_id, Some(1));
    assert_eq!(s.dire.name, "Dire");
    assert_eq!(s.league_name.as_deref(), Some("TI"));
    assert_eq!(s.gold_lead, -3500);
    assert_eq!(s.radiant.towers_killed, 0);
    assert_eq!(s.dire.towers_killed, 4);
    assert_eq!(s.dire.barracks_killed, 4);
    assert_eq!(s.radiant.barracks_killed, 0);
    assert_eq!(s.radiant.kills, 11);
    assert_eq!(s.game_time, 1500);
}
