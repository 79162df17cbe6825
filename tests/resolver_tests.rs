use esport_signal::{
    LiveMatchState, PolymarketMarket, TeamAliasEntry, TeamAliases, TeamResolver, TeamState,
    Timestamp, PROB_SCALE,
};

fn team(name: &str) -> TeamState {
    TeamState {
        name: name.to_string(),
        team_id: None,
        kills: 0,
        towers_killed: 0,
        barracks_killed: 0,
    }
}

fn live(id: i64, radiant: &str, dire: &str) -> LiveMatchState {
    LiveMatchState {
        match_id: id,
        league_name: None,
        radiant: team(radiant),
        dire: team(dire),
        gold_lead: 0,
        game_time: 0,
        is_live: true,
        updated_at: Timestamp { unix_seconds: 0, nanos: 0 },
    }
}

fn market(id: &str, a: &str, b: &str) -> PolymarketMarket {
    PolymarketMarket {
        condition_id: id.to_string(),
        question: format!("{} vs {}", a, b),
        team_a: a.to_string(),
        team_b: b.to_string(),
        team_a_odds: PROB_SCALE / 2,
        team_b_odds: PROB_SCALE / 2,
        liquidity_cents: 0,
        end_date: None,
        active: true,
    }
}

#[test]
fn test_normalize() {
    let mut resolver = TeamResolver::new();
    resolver.add_alias("ts", "team spirit");
    resolver.add_alias("spirit", "team spirit");

    assert_eq!(resolver.normalize("Team Spirit"), "team spirit");
    assert_eq!(resolver.normalize("TS"), "team spirit");
    assert_eq!(resolver.normalize("Spirit"), "team spirit");
    assert_eq!(resolver.normalize("OG"), "og");
}

#[test]
fn test_names_match() {
    let mut resolver = TeamResolver::new();
    resolver.add_alias("ts", "team spirit");
    resolver.add_alias("spirit", "team spirit");

    assert!(resolver.names_match("Team Spirit", "TS"));
    assert!(resolver.names_match("Spirit", "Team Spirit"));
    assert!(!resolver.names_match("Team Spirit", "OG"));
}

#[test]
fn normalize_trims_after_lowercasing() {
    let resolver = TeamResolver::new();
    assert_eq!(resolver.normalize("  Gaimin GLADIATORS \t"), "gaimin gladiators");
}

#[test]
fn normalize_trims_unicode_white_space() {
    let resolver = TeamResolver::new();
    assert_eq!(resolver.normalize("\u{3000}OG\u{a0}\u{2009}"), "og");
    assert_eq!(resolver.normalize("\u{200b}OG"), "\u{200b}og");
}

#[test]
fn normalize_is_idempotent_on_examples() {
    let mut resolver = TeamResolver::new();
    resolver.add_alias("ts", "team spirit");
    resolver.add_alias("team spirit", "team spirit");
    for name in ["TS", " Team Spirit ", "OG", "Nouns", ""] {
        let once = resolver.normalize(name);
        assert_eq!(resolver.normalize(&once), once);
    }
}

#[test]
fn later_alias_replaces_earlier_one() {
    let mut resolver = TeamResolver::new();
    resolver.add_alias("liquid", "team liquid");
    resolver.add_alias("Liquid", "Liquid Esports");
    assert_eq!(resolver.normalize("LIQUID"), "liquid esports");
}

#[test]
fn from_aliases_maps_canonical_and_aliases() {
    let config = TeamAliases {
        teams: vec![TeamAliasEntry {
            canonical: "Team Spirit".to_string(),
            aliases: vec!["TS".to_string(), "Spirit".to_string()],
        }],
    };
    let resolver = TeamResolver::from_aliases(&config);
    assert_eq!(resolver.normalize("ts"), "team spirit");
    assert_eq!(resolver.normalize("SPIRIT"), "team spirit");
    assert_eq!(resolver.normalize("Team Spirit"), "team spirit");
    assert_eq!(resolver.normalize("OG"), "og");
}

#[test]
fn match_finds_team_a_on_radiant() {
    let mut resolver = TeamResolver::new();
    resolver.add_alias("ts", "team spirit");
    let m = market("X", "Team Spirit", "OG");
    let lives = vec![live(3, "Nouns", "Gladiators"), live(7, "TS", "og")];
    let res = resolver.match_market_to_live(&m, &lives).expect("a match");
    assert_eq!(res.match_state.match_id, 7);
    assert!(res.market_team_a_is_radiant);
    assert_eq!(res.market.condition_id, "X");
}

#[test]
fn match_is_symmetric_under_team_swap() {
    let mut resolver = TeamResolver::new();
    resolver.add_alias("ts", "team spirit");
    let lives = vec![live(1, "Nouns", "Gladiators"), live(7, "TS", "og")];
    let straight = resolver
        .match_market_to_live(&market("X", "Team Spirit", "OG"), &lives)
        .unwrap();
    let swapped = resolver
        .match_market_to_live(&market("X", "OG", "Team Spirit"), &lives)
        .unwrap();
    assert!(straight.market_team_a_is_radiant);
    assert!(!swapped.market_team_a_is_radiant);
    assert_eq!(straight.match_state.match_id, swapped.match_state.match_id);
}

#[test]
fn match_takes_first_in_list_order() {
    let resolver = TeamResolver::new();
    let lives = vec![live(5, "og", "Liquid"), live(6, "Liquid", "OG")];
    let res = resolver
        .match_market_to_live(&market("M", "Liquid", "OG"), &lives)
        .unwrap();
    assert_eq!(res.match_state.match_id, 5);
    assert!(!res.market_team_a_is_radiant);
}

#[test]
fn unmatched_market_gives_none() {
    let resolver = TeamResolver::new();
    let lives = vec![live(7, "Team Spirit", "OG")];
    assert!(resolver
        .match_market_to_live(&market("N", "Nouns", "Gladiators"), &lives)
        .is_none());
    assert!(resolver
        .match_market_to_live(&market("N", "Nouns", "Gladiators"), &[])
        .is_none());
}
