use vstd::prelude::*;

use crate::markets::ActiveMarkets;
use crate::models::{LiveMatchState, MatchUpdate, PolymarketMarket, Timestamp};
use crate::signal::{abs, strength_of, Signal, SignalStrength, SignalType};
use crate::text::{decimal, decimal_text, signed_decimal, signed_text, two_digit, two_digit_text};

verus! {

pub open spec fn barracks_delta(cur: LiveMatchState, prev: LiveMatchState) -> int {
    (cur.radiant.barracks_killed - prev.radiant.barracks_killed) + (cur.dire.barracks_killed
        - prev.dire.barracks_killed)
}

pub open spec fn towers_delta(cur: LiveMatchState, prev: LiveMatchState) -> int {
    (cur.radiant.towers_killed - prev.radiant.towers_killed) + (cur.dire.towers_killed
        - prev.dire.towers_killed)
}

pub open spec fn kills_delta(cur: LiveMatchState, prev: LiveMatchState) -> int {
    (cur.radiant.kills - prev.radiant.kills) + (cur.dire.kills - prev.dire.kills)
}

/// The type of an update, first rule that applies winning.
pub open spec fn signal_type_of(cur: LiveMatchState, prev: Option<LiveMatchState>) -> SignalType {
    match prev {
        None => SignalType::GameStart,
        Some(p) => {
            if barracks_delta(cur, p) > 0 {
                SignalType::BarracksKill
            } else if towers_delta(cur, p) > 0 {
                SignalType::TowerKill
            } else if kills_delta(cur, p) >= 5 {
                SignalType::KillSpree
            } else if abs(cur.gold_lead - p.gold_lead) >= 5000 {
                SignalType::GoldSwing
            } else if p.game_time <= 2100 && cur.game_time > 2100 {
                SignalType::LateGame
            } else {
                SignalType::PeriodicUpdate
            }
        },
    }
}

pub open spec fn clamp(x: int, lo: int, hi: int) -> int {
    if x < lo {
        lo
    } else if x > hi {
        hi
    } else {
        x
    }
}

/// Game time counted towards progress: progress is this over 2400 seconds.
pub open spec fn progress_secs(game_time: int) -> int {
    if game_time < 2400 {
        game_time
    } else {
        2400
    }
}

/// Radiant's advantage in units of 1/100000 of probability: half a percent
/// per kill, one percent per thousand gold, three per tower, eight per
/// barracks.
pub open spec fn advantage(s: LiveMatchState) -> int {
    500 * (s.radiant.kills - s.dire.kills) + s.gold_lead + 3000 * (s.radiant.towers_killed
        - s.dire.towers_killed) + 8000 * (s.radiant.barracks_killed - s.dire.barracks_killed)
}

/// Radiant's win probability in units of `1 / PROB_SCALE`: one half plus the
/// advantage, amplified by `1 + progress / 2`, clamped to [5%, 95%].
pub open spec fn win_probability_of(s: LiveMatchState) -> int {
    clamp(
        240_000_000 + advantage(s) * (4800 + progress_secs(s.game_time as int)),
        24_000_000,
        456_000_000,
    )
}

/// Whether the lead is large: ten kills or ten thousand gold.
pub open spec fn large_lead(s: LiveMatchState) -> bool {
    abs(s.radiant.kills - s.dire.kills) >= 10 || abs(s.gold_lead as int) >= 10000
}

pub open spec fn lead_bonus(s: LiveMatchState) -> int {
    if large_lead(s) {
        72_000_000
    } else {
        0
    }
}

/// Confidence in units of `1 / PROB_SCALE`: one half, plus 0.3 of progress,
/// plus 0.15 for a large lead, clamped to [30%, 95%].
pub open spec fn confidence_of(s: LiveMatchState) -> int {
    clamp(
        240_000_000 + 60_000 * progress_secs(s.game_time as int) + lead_bonus(s),
        144_000_000,
        456_000_000,
    )
}

pub open spec fn previous_of(p: Option<&LiveMatchState>) -> Option<LiveMatchState> {
    match p {
        Some(s) => Some(*s),
        None => None,
    }
}

/// Classifies an update by comparing it with the previous observation.
pub fn detect_signal_type(current: &LiveMatchState, previous: Option<&LiveMatchState>) -> (r:
    SignalType)
    ensures
        r == signal_type_of(*current, previous_of(previous)),
{
    let previous = match previous {
        Some(p) => p,
        None => {
            return SignalType::GameStart;
        },
    };
    let rax_diff: i64 = (current.radiant.barracks_killed as i64 - previous.radiant.barracks_killed as i64)
        + (current.dire.barracks_killed as i64 - previous.dire.barracks_killed as i64);
    if rax_diff > 0 {
        return SignalType::BarracksKill;
    }
    let tower_diff: i64 = (current.radiant.towers_killed as i64 - previous.radiant.towers_killed as i64)
        + (current.dire.towers_killed as i64 - previous.dire.towers_killed as i64);
    if tower_diff > 0 {
        return SignalType::TowerKill;
    }
    let kill_diff: i64 = (current.radiant.kills as i64 - previous.radiant.kills as i64) + (
    current.dire.kills as i64 - previous.dire.kills as i64);
    if kill_diff >= 5 {
        return SignalType::KillSpree;
    }
    let swing: i128 = current.gold_lead as i128 - previous.gold_lead as i128;
    if swing >= 5000 || swing <= -5000 {
        return SignalType::GoldSwing;
    }
    if current.game_time > 2100 && previous.game_time <= 2100 {
        return SignalType::LateGame;
    }
    SignalType::PeriodicUpdate
}

fn progress_of(game_time: i32) -> (r: i128)
    ensures
        r == progress_secs(game_time as int),
{
    if game_time < 2400 {
        game_time as i128
    } else {
        2400
    }
}

/// Radiant's modelled win probability, in units of `1 / PROB_SCALE`.
pub fn calculate_win_probability(state: &LiveMatchState) -> (r: i64)
    ensures
        r == win_probability_of(*state),
        24_000_000 <= r <= 456_000_000,
{
    let kill_diff: i128 = state.radiant.kills as i128 - state.dire.kills as i128;
    let tower_diff: i128 = state.radiant.towers_killed as i128 - state.dire.towers_killed as i128;
    let rax_diff: i128 = state.radiant.barracks_killed as i128 - state.dire.barracks_killed as i128;
    let adv: i128 = 500 * kill_diff + state.gold_lead as i128 + 3000 * tower_diff + 8000 * rax_diff;
    let factor: i128 = 4800 + progress_of(state.game_time);
    assert(-20_000_000_000_000_000_000 <= adv <= 20_000_000_000_000_000_000);
    assert(-3_000_000_000 <= factor <= 7200);
    assert(-60_000_000_000_000_000_000_000_000_000 <= adv * factor
        <= 60_000_000_000_000_000_000_000_000_000) by (nonlinear_arith)
        requires
            -20_000_000_000_000_000_000 <= adv <= 20_000_000_000_000_000_000,
            -3_000_000_000 <= factor <= 7200,
    ;
    let score: i128 = 240_000_000 + adv * factor;
    if score < 24_000_000 {
        24_000_000
    } else if score > 456_000_000 {
        456_000_000
    } else {
        score as i64
    }
}

/// Confidence in the model's estimate, in units of `1 / PROB_SCALE`.
pub fn calculate_confidence(state: &LiveMatchState) -> (r: i64)
    ensures
        r == confidence_of(*state),
        144_000_000 <= r <= 456_000_000,
{
    let kill_diff: i64 = state.radiant.kills as i64 - state.dire.kills as i64;
    let kill_gap: i64 = if kill_diff < 0 {
        -kill_diff
    } else {
        kill_diff
    };
    let gold_large = state.gold_lead >= 10000 || state.gold_lead <= -10000;
    let bonus: i128 = if kill_gap >= 10 || gold_large {
        72_000_000
    } else {
        0
    };
    let score: i128 = 240_000_000 + 60_000 * progress_of(state.game_time) + bonus;
    if score < 144_000_000 {
        144_000_000
    } else if score > 456_000_000 {
        456_000_000
    } else {
        score as i64
    }
}

/// Quotient rounded toward zero, as integer division does.
pub open spec fn div_toward_zero(x: int, d: int) -> int {
    if x >= 0 {
        x / d
    } else {
        -((-x) / d)
    }
}

/// Remainder that goes with `div_toward_zero`.
pub open spec fn rem_toward_zero(x: int, d: int) -> int {
    x - div_toward_zero(x, d) * d
}

/// The size of an edge in whole percent, halves rounded up.
pub open spec fn edge_percent(edge: int) -> nat {
    ((abs(edge) + 2_400_000) / 4_800_000) as nat
}

/// A gold lead in whole thousands, halves rounded up.
pub open spec fn gold_thousands(gold: int) -> nat {
    ((abs(gold) + 500) / 1000) as nat
}

/// "<team> favored": radiant for a positive edge, dire otherwise.
pub open spec fn favored_text(s: LiveMatchState, edge: int) -> Seq<char> {
    if edge > 0 {
        s.radiant.name@ + " favored"@
    } else {
        s.dire.name@ + " favored"@
    }
}

/// The part of a reason that depends on the signal type.
pub open spec fn reason_head(s: LiveMatchState, t: SignalType) -> Seq<char> {
    match t {
        SignalType::GameStart => "Game started: "@,
        SignalType::KillSpree => "Kill spree detected: "@ + s.radiant.name@ + " ("@ + signed_decimal(
            s.radiant.kills as int,
        ) + ":"@ + signed_decimal(s.dire.kills as int) + ") - "@,
        SignalType::TowerKill => "Tower destroyed: "@,
        SignalType::BarracksKill => "Barracks destroyed: "@,
        SignalType::RoshanKill => "Roshan killed: "@,
        SignalType::GoldSwing => "Gold swing: "@ + (if s.gold_lead > 0 {
            s.radiant.name@
        } else {
            s.dire.name@
        }) + " lead by "@ + decimal(gold_thousands(s.gold_lead as int)) + "k - "@,
        SignalType::LateGame => "Late game ("@ + signed_decimal(div_toward_zero(s.game_time as int, 60))
            + "min): "@,
        SignalType::FirstBlood | SignalType::PeriodicUpdate => "Update at "@ + signed_decimal(
            div_toward_zero(s.game_time as int, 60),
        ) + ":"@ + two_digit(rem_toward_zero(s.game_time as int, 60)) + ": "@,
    }
}

/// The human-readable reason of a signal.
pub open spec fn reason_text(s: LiveMatchState, t: SignalType, edge: int) -> Seq<char> {
    reason_head(s, t) + favored_text(s, edge) + " at "@ + decimal(edge_percent(edge)) + "%"@
}

fn reason_head_text(state: &LiveMatchState, signal_type: SignalType) -> (r: String)
    ensures
        r@ == reason_head(*state, signal_type),
{
    match signal_type {
        SignalType::GameStart => String::from_str("Game started: "),
        SignalType::KillSpree => {
            let mut r = String::from_str("Kill spree detected: ");
            r.append(state.radiant.name.as_str());
            r.append(" (");
            r.append(signed_text(state.radiant.kills as i64).as_str());
            r.append(":");
            r.append(signed_text(state.dire.kills as i64).as_str());
            r.append(") - ");
            r
        },
        SignalType::TowerKill => String::from_str("Tower destroyed: "),
        SignalType::BarracksKill => String::from_str("Barracks destroyed: "),
        SignalType::RoshanKill => String::from_str("Roshan killed: "),
        SignalType::GoldSwing => {
            let gold: i128 = state.gold_lead as i128;
            let size: i128 = if gold < 0 {
                -gold
            } else {
                gold
            };
            let thousands: u64 = ((size + 500) / 1000) as u64;
            let mut r = String::from_str("Gold swing: ");
            if state.gold_lead > 0 {
                r.append(state.radiant.name.as_str());
            } else {
                r.append(state.dire.name.as_str());
            }
            r.append(" lead by ");
            r.append(decimal_text(thousands).as_str());
            r.append("k - ");
            r
        },
        SignalType::LateGame => {
            let mut r = String::from_str("Late game (");
            r.append(signed_text(minutes_of(state.game_time)).as_str());
            r.append("min): ");
            r
        },
        SignalType::FirstBlood | SignalType::PeriodicUpdate => {
            let minutes = minutes_of(state.game_time);
            let seconds: i64 = state.game_time as i64 - minutes * 60;
            let mut r = String::from_str("Update at ");
            r.append(signed_text(minutes).as_str());
            r.append(":");
            r.append(two_digit_text(seconds).as_str());
            r.append(": ");
            r
        },
    }
}

fn minutes_of(game_time: i32) -> (r: i64)
    ensures
        r == div_toward_zero(game_time as int, 60),
        -40_000_000 <= r <= 40_000_000,
{
    if game_time >= 0 {
        (game_time / 60) as i64
    } else {
        let magnitude: i64 = -(game_time as i64);
        -(magnitude / 60)
    }
}

/// The human-readable reason of a signal of the given type, for the given
/// state and edge (in units of `1 / PROB_SCALE`).
pub fn generate_reason(state: &LiveMatchState, signal_type: SignalType, edge: i64) -> (r: String)
    ensures
        r@ == reason_text(*state, signal_type, edge as int),
{
    let mut r = reason_head_text(state, signal_type);
    if edge > 0 {
        r.append(state.radiant.name.as_str());
    } else {
        r.append(state.dire.name.as_str());
    }
    r.append(" favored");
    let e: i128 = edge as i128;
    let size: i128 = if e < 0 {
        -e
    } else {
        e
    };
    let percent: u64 = ((size + 2_400_000) / 4_800_000) as u64;
    r.append(" at ");
    r.append(decimal_text(percent).as_str());
    r.append("%");
    assert(r@ =~= reason_text(*state, signal_type, edge as int));
    r
}

/// `sig` is the signal that `update` gives against `market`: radiant's win
/// probability, the market's odds for team A, their difference as the edge,
/// the confidence, the strength of the edge and the reason.
pub open spec fn is_signal_for(
    sig: Signal,
    market: PolymarketMarket,
    update: MatchUpdate,
    match_snapshot: Seq<char>,
    created_at: Timestamp,
) -> bool {
    let p = win_probability_of(update.state);
    let edge = p - market.team_a_odds;
    let t = signal_type_of(update.state, update.previous_state);
    &&& sig.id is None
    &&& sig.market_condition_id == update.market_condition_id
    &&& sig.match_id == update.state.match_id
    &&& sig.signal_type == t
    &&& sig.team_a_win_prob == p
    &&& sig.market_team_a_odds == market.team_a_odds
    &&& sig.edge == edge
    &&& sig.confidence == confidence_of(update.state)
    &&& sig.strength == strength_of(edge)
    &&& sig.reason@ == reason_text(update.state, t, edge)
    &&& sig.match_snapshot@ == match_snapshot
    &&& sig.created_at == created_at
}

/// Evaluates one update against the active markets. Returns `None` when its
/// market is no longer active (the update is dropped), and the signal to
/// persist otherwise. `match_snapshot` is the state serialized as JSON.
pub fn evaluate_update(
    markets: &ActiveMarkets,
    update: &MatchUpdate,
    match_snapshot: String,
    created_at: Timestamp,
) -> (r: Option<Signal>)
    requires
        markets.well_formed(),
    ensures
        r is None <==> markets.market(update.market_condition_id@) is None,
        r matches Some(sig) ==> is_signal_for(
            sig,
            markets.market(update.market_condition_id@)->0,
            *update,
            match_snapshot@,
            created_at,
        ),
{
    let market = match markets.get(&update.market_condition_id) {
        Some(m) => m,
        None => {
            return None;
        },
    };
    let previous = match &update.previous_state {
        Some(p) => Some(p),
        None => None,
    };
    let signal_type = detect_signal_type(&update.state, previous);
    let team_a_win_prob = calculate_win_probability(&update.state);
    let market_team_a_odds = market.team_a_odds;
    let edge = team_a_win_prob - market_team_a_odds;
    let confidence = calculate_confidence(&update.state);
    let strength: SignalStrength = SignalStrength::from_edge(edge);
    let reason = generate_reason(&update.state, signal_type, edge);
    Some(
        Signal {
            id: None,
            market_condition_id: update.market_condition_id.clone(),
            match_id: update.state.match_id,
            signal_type,
            team_a_win_prob,
            market_team_a_odds,
            edge,
            confidence,
            strength,
            reason,
            match_snapshot,
            created_at,
        },
    )
}

/// The win probability always lies within [5%, 95%].
pub proof fn lemma_win_probability_bounds(s: LiveMatchState)
    ensures
        24_000_000 <= win_probability_of(s) <= 456_000_000,
{
}

/// The first observation of a market and match is a game start, whatever the
/// state.
pub proof fn lemma_first_observation(cur: LiveMatchState)
    ensures
        signal_type_of(cur, None) == SignalType::GameStart,
{
}

/// A barracks delta outranks a tower delta in the same diff.
pub proof fn lemma_barracks_before_towers(cur: LiveMatchState, prev: LiveMatchState)
    requires
        barracks_delta(cur, prev) > 0,
        towers_delta(cur, prev) > 0,
    ensures
        signal_type_of(cur, Some(prev)) == SignalType::BarracksKill,
{
}

} // verus!
