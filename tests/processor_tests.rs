use esport_signal::{
    calculate_confidence, calculate_win_probability, collect_updates, detect_signal_type,
    evaluate_update, generate_reason, parse_signal_strength, parse_signal_type, ActiveMarkets,
    LiveMatchCache, LiveMatchState, MatchUpdate, PolymarketMarket, SignalStrength, SignalType,
    TeamResolver, TeamState, Timestamp, PROB_SCALE,
};

fn team(name: &str) -> TeamState {
    TeamState {
        name: name.to_string(),
        team_id: None,
        kills: 0,
        towers_killed: 0,
        barracks_killed: 0,
    }
}

fn state(id: i64, radiant: &str, dire: &str) -> LiveMatchState {
    LiveMatchState {
        match_id: id,
        league_name: None,
        radiant: team(radiant),
        dire: team(dire),
        gold_lead: 0,
        game_time: 0,
        is_live: true,
        updated_at: Timestamp { unix_seconds: 1_700_000_000, nanos: 0 },
    }
}

fn market(id: &str, a: &str, b: &str, a_odds: i64) -> PolymarketMarket {
    PolymarketMarket {
        condition_id: id.to_string(),
        question: String::new(),
        team_a: a.to_string(),
        team_b: b.to_string(),
        team_a_odds: a_odds,
        team_b_odds: PROB_SCALE - a_odds,
        liquidity_cents: 0,
        end_date: None,
        active: true,
    }
}

fn units(p: f64) -> i64 {
    (p * PROB_SCALE as f64).round() as i64
}

#[test]
fn game_start_end_to_end() {
    let mut resolver = TeamResolver::new();
    resolver.add_alias("ts", "team spirit");
    let mut markets = ActiveMarkets::new();
    markets.replace_all(vec![market("X", "Team Spirit", "OG", units(0.55))]);
    let lives = vec![state(7, "TS", "og")];
    let mut cache = LiveMatchCache::new();

    let updates = collect_updates(&resolver, &markets, &lives, &mut cache);
    assert_eq!(updates.len(), 1);
    assert!(updates[0].previous_state.is_none());
    assert_eq!(updates[0].market_condition_id, "X");
    assert_eq!(cache.get(&7).unwrap().radiant.name, "TS");

    let created = Timestamp { unix_seconds: 1_700_000_100, nanos: 0 };
    let sig = evaluate_update(&markets, &updates[0], "{}".to_string(), created).unwrap();
    assert_eq!(sig.signal_type, SignalType::GameStart);
    assert_eq!(sig.team_a_win_prob, PROB_SCALE / 2);
    assert_eq!(sig.edge, PROB_SCALE / 2 - units(0.55));
    assert!((sig.edge as f64 / PROB_SCALE as f64 - (0.5 - 0.55)).abs() < 1e-9);
    assert_eq!(sig.strength, SignalStrength::Moderate);
    assert_eq!(sig.confidence, PROB_SCALE / 2);
    assert!(sig.reason.starts_with("Game started:"));
    assert_eq!(sig.reason, "Game started: og favored at 5%");
    assert_eq!(sig.match_id, 7);
    assert_eq!(sig.created_at, created);
    assert_eq!(sig.id, None);
}

#[test]
fn second_pass_carries_previous_state() {
    let resolver = TeamResolver::new();
    let mut markets = ActiveMarkets::new();
    markets.replace_all(vec![market("X", "Spirit", "OG", units(0.5))]);
    let mut cache = LiveMatchCache::new();
    let first = vec![state(7, "Spirit", "OG")];
    collect_updates(&resolver, &markets, &first, &mut cache);
    let mut later = state(7, "Spirit", "OG");
    later.radiant.kills = 3;
    let updates = collect_updates(&resolver, &markets, &vec![later], &mut cache);
    assert_eq!(updates.len(), 1);
    assert_eq!(updates[0].previous_state.as_ref().unwrap().radiant.kills, 0);
    assert_eq!(updates[0].state.radiant.kills, 3);
    assert_eq!(cache.get(&7).unwrap().radiant.kills, 3);
}

#[test]
fn unmatched_market_enqueues_nothing() {
    let resolver = TeamResolver::new();
    let mut markets = ActiveMarkets::new();
    markets.replace_all(vec![market("N", "Nouns", "Gladiators", units(0.5))]);
    let mut cache = LiveMatchCache::new();
    let lives = vec![state(7, "Team Spirit", "OG")];
    let updates = collect_updates(&resolver, &markets, &lives, &mut cache);
    assert!(updates.is_empty());
    assert!(cache.is_empty());
}

#[test]
fn evicted_market_drops_update() {
    let mut markets = ActiveMarkets::new();
    markets.replace_all(vec![market("X", "A", "B", units(0.5))]);
    let update = MatchUpdate {
        market_condition_id: "X".to_string(),
        state: state(7, "A", "B"),
        previous_state: None,
    };
    markets.replace_all(vec![market("Y", "C", "D", units(0.5))]);
    let t = Timestamp { unix_seconds: 0, nanos: 0 };
    assert!(evaluate_update(&markets, &update, String::new(), t).is_none());
}

#[test]
fn first_observation_is_game_start() {
    let mut s = state(1, "A", "B");
    s.radiant.barracks_killed = 3;
    s.game_time = 3000;
    assert_eq!(detect_signal_type(&s, None), SignalType::GameStart);
}

#[test]
fn barracks_and_tower_coincidence() {
    let mut prev = state(1, "A", "B");
    prev.radiant.towers_killed = 2;
    prev.radiant.barracks_killed = 0;
    prev.dire.towers_killed = 2;
    let mut cur = state(1, "A", "B");
    cur.dire.towers_killed = 2;
    cur.radiant.towers_killed = 3;
    cur.radiant.barracks_killed = 1;
    cur.game_time = 1800;
    assert_eq!(detect_signal_type(&cur, Some(&prev)), SignalType::BarracksKill);
    let p = calculate_win_probability(&cur);
    assert_eq!(p, 312_600_000);
    let expected = 0.5 + (0.03 + 0.08) * (1.0 + 0.5 * 1800.0 / 2400.0);
    assert!((p as f64 / PROB_SCALE as f64 - expected).abs() < 1e-9);
}

#[test]
fn gold_swing_update() {
    let prev = state(1, "Radiant", "Dire");
    let mut cur = state(1, "Radiant", "Dire");
    cur.gold_lead = 6000;
    cur.game_time = 600;
    let t = detect_signal_type(&cur, Some(&prev));
    assert_eq!(t, SignalType::GoldSwing);
    let p = calculate_win_probability(&cur);
    assert_eq!(p, 272_400_000);
    let reason = generate_reason(&cur, t, p - PROB_SCALE / 2);
    assert!(reason.contains("Gold swing"));
    assert!(reason.contains("6k"));
    assert_eq!(reason, "Gold swing: Radiant lead by 6k - Radiant favored at 7%");
}

#[test]
fn other_classifications() {
    let prev = state(1, "A", "B");
    let mut towers = state(1, "A", "B");
    towers.dire.towers_killed = 1;
    assert_eq!(detect_signal_type(&towers, Some(&prev)), SignalType::TowerKill);
    let mut spree = state(1, "A", "B");
    spree.radiant.kills = 3;
    spree.dire.kills = 2;
    assert_eq!(detect_signal_type(&spree, Some(&prev)), SignalType::KillSpree);
    let mut four = state(1, "A", "B");
    four.radiant.kills = 4;
    assert_eq!(detect_signal_type(&four, Some(&prev)), SignalType::PeriodicUpdate);
    let mut swing_down = state(1, "A", "B");
    swing_down.gold_lead = -5000;
    assert_eq!(detect_signal_type(&swing_down, Some(&prev)), SignalType::GoldSwing);
    let mut before = state(1, "A", "B");
    before.game_time = 2100;
    let mut after = state(1, "A", "B");
    after.game_time = 2101;
    assert_eq!(detect_signal_type(&after, Some(&before)), SignalType::LateGame);
    assert_eq!(detect_signal_type(&after, Some(&after)), SignalType::PeriodicUpdate);
}

#[test]
fn win_probability_is_clamped() {
    let mut s = state(1, "A", "B");
    s.gold_lead = 200_000;
    s.game_time = 3000;
    assert_eq!(calculate_win_probability(&s), units(0.95));
    s.gold_lead = -200_000;
    assert_eq!(calculate_win_probability(&s), units(0.05));
    s.gold_lead = i64::MIN;
    s.radiant.kills = i32::MIN;
    s.game_time = i32::MIN;
    let p = calculate_win_probability(&s);
    assert!(p >= units(0.05) && p <= units(0.95));
}

#[test]
fn win_probability_formula() {
    let mut s = state(1, "A", "B");
    s.radiant.kills = 10;
    s.dire.kills = 4;
    s.gold_lead = 2500;
    s.dire.towers_killed = 1;
    s.game_time = 1200;
    let expected = 0.5 + (0.005 * 6.0 + 0.01 * 2.5 - 0.03) * (1.0 + 0.5 * 0.5);
    let p = calculate_win_probability(&s);
    assert!((p as f64 / PROB_SCALE as f64 - expected).abs() < 1e-9);
    assert_eq!(p, 255_000_000);
}

#[test]
fn confidence_formula() {
    let mut s = state(1, "A", "B");
    assert_eq!(calculate_confidence(&s), units(0.5));
    s.game_time = 1200;
    assert_eq!(calculate_confidence(&s), units(0.65));
    s.gold_lead = -10_000;
    assert_eq!(calculate_confidence(&s), units(0.8));
    s.game_time = 5000;
    s.gold_lead = 0;
    s.radiant.kills = 10;
    assert_eq!(calculate_confidence(&s), units(0.95));
    s.radiant.kills = 0;
    s.game_time = -20_000;
    assert_eq!(calculate_confidence(&s), units(0.3));
}

#[test]
fn strength_thresholds() {
    assert_eq!(SignalStrength::from_edge(0), SignalStrength::Weak);
    assert_eq!(SignalStrength::from_edge(units(0.03) - 1), SignalStrength::Weak);
    assert_eq!(SignalStrength::from_edge(units(0.03)), SignalStrength::Moderate);
    assert_eq!(SignalStrength::from_edge(-units(0.07)), SignalStrength::Strong);
    assert_eq!(SignalStrength::from_edge(units(0.12) - 1), SignalStrength::Strong);
    assert_eq!(SignalStrength::from_edge(units(0.12)), SignalStrength::VeryStrong);
    assert_eq!(SignalStrength::from_edge(i64::MIN), SignalStrength::VeryStrong);
}

#[test]
fn strength_is_monotone_on_examples() {
    let rank = |s: SignalStrength| match s {
        SignalStrength::Weak => 0,
        SignalStrength::Moderate => 1,
        SignalStrength::Strong => 2,
        SignalStrength::VeryStrong => 3,
    };
    let edges = [0i64, 1, 14_399_999, 14_400_000, 33_600_000, 57_600_000, 400_000_000];
    for a in edges {
        for b in edges {
            if a >= b {
                assert!(rank(SignalStrength::from_edge(-a)) >= rank(SignalStrength::from_edge(b)));
            }
        }
    }
}

#[test]
fn reasons_by_type() {
    let mut s = state(1, "Spirit", "OG");
    s.radiant.kills = 7;
    s.dire.kills = 2;
    s.game_time = 2200;
    let e = units(0.101);
    assert_eq!(
        generate_reason(&s, SignalType::KillSpree, e),
        "Kill spree detected: Spirit (7:2) - Spirit favored at 10%"
    );
    assert_eq!(generate_reason(&s, SignalType::TowerKill, -e), "Tower destroyed: OG favored at 10%");
    assert_eq!(generate_reason(&s, SignalType::BarracksKill, e), "Barracks destroyed: Spirit favored at 10%");
    assert_eq!(generate_reason(&s, SignalType::RoshanKill, e), "Roshan killed: Spirit favored at 10%");
    assert_eq!(generate_reason(&s, SignalType::LateGame, e), "Late game (36min): Spirit favored at 10%");
    assert_eq!(
        generate_reason(&s, SignalType::PeriodicUpdate, units(0.125)),
        "Update at 36:40: Spirit favored at 13%"
    );
    s.game_time = 65;
    assert_eq!(generate_reason(&s, SignalType::PeriodicUpdate, 0), "Update at 1:05: OG favored at 0%");
    s.game_time = -90;
    assert_eq!(generate_reason(&s, SignalType::PeriodicUpdate, 0), "Update at -1:-30: OG favored at 0%");
    s.gold_lead = -1499;
    assert_eq!(
        generate_reason(&s, SignalType::GoldSwing, 0),
        "Gold swing: OG lead by 1k - OG favored at 0%"
    );
}

#[test]
fn stored_names_round_trip() {
    let types = [
        SignalType::PeriodicUpdate,
        SignalType::FirstBlood,
        SignalType::KillSpree,
        SignalType::TowerKill,
        SignalType::BarracksKill,
        SignalType::RoshanKill,
        SignalType::GoldSwing,
        SignalType::GameStart,
        SignalType::LateGame,
    ];
    for t in types {
        assert_eq!(parse_signal_type(t.as_str()), t);
    }
    assert_eq!(SignalType::RoshanKill.as_str(), "roshan_kill");
    assert_eq!(parse_signal_type("nonsense"), SignalType::PeriodicUpdate);
    let strengths = [
        SignalStrength::Weak,
        SignalStrength::Moderate,
        SignalStrength::Strong,
        SignalStrength::VeryStrong,
    ];
    for s in strengths {
        assert_eq!(parse_signal_strength(s.as_str()), s);
    }
    assert_eq!(SignalStrength::VeryStrong.as_str(), "very_strong");
    assert_eq!(parse_signal_strength("huge"), SignalStrength::Weak);
}
