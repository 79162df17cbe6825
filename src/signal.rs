use vstd::prelude::*;

use crate::models::{same_text, Timestamp};

verus! {

/// Kind of event that a signal records.
#[derive(Clone, Copy, Debug, PartialEq, Eq, Structural)]
pub enum SignalType {
    PeriodicUpdate,
    FirstBlood,
    KillSpree,
    TowerKill,
    BarracksKill,
    RoshanKill,
    GoldSwing,
    GameStart,
    LateGame,
}

/// How far the model is from the market, from weak to very strong.
#[derive(Clone, Copy, Debug, PartialEq, Eq, Structural)]
pub enum SignalStrength {
    Weak,
    Moderate,
    Strong,
    VeryStrong,
}

/// A persisted evaluation of one match update against its market.
/// Probabilities, odds, edge and confidence are multiples of `1 / PROB_SCALE`.
#[derive(Clone, Debug, PartialEq, Eq)]
pub struct Signal {
    pub id: Option<i64>,
    pub market_condition_id: String,
    pub match_id: i64,
    pub signal_type: SignalType,
    pub team_a_win_prob: i64,
    pub market_team_a_odds: i64,
    pub edge: i64,
    pub confidence: i64,
    pub strength: SignalStrength,
    pub reason: String,
    /// The match state as JSON.
    pub match_snapshot: String,
    pub created_at: Timestamp,
}

/// The stored name of a signal type.
pub open spec fn type_text(t: SignalType) -> Seq<char> {
    match t {
        SignalType::PeriodicUpdate => "periodic_update"@,
        SignalType::FirstBlood => "first_blood"@,
        SignalType::KillSpree => "kill_spree"@,
        SignalType::TowerKill => "tower_kill"@,
        SignalType::BarracksKill => "barracks_kill"@,
        SignalType::RoshanKill => "roshan_kill"@,
        SignalType::GoldSwing => "gold_swing"@,
        SignalType::GameStart => "game_start"@,
        SignalType::LateGame => "late_game"@,
    }
}

/// The stored name of a strength.
pub open spec fn strength_text(s: SignalStrength) -> Seq<char> {
    match s {
        SignalStrength::Weak => "weak"@,
        SignalStrength::Moderate => "moderate"@,
        SignalStrength::Strong => "strong"@,
        SignalStrength::VeryStrong => "very_strong"@,
    }
}

/// Rank of a strength: weak < moderate < strong < very strong.
pub open spec fn strength_rank(s: SignalStrength) -> int {
    match s {
        SignalStrength::Weak => 0,
        SignalStrength::Moderate => 1,
        SignalStrength::Strong => 2,
        SignalStrength::VeryStrong => 3,
    }
}

pub open spec fn abs(x: int) -> int {
    if x < 0 {
        -x
    } else {
        x
    }
}

/// Strength of an edge: below 3% weak, below 7% moderate, below 12% strong,
/// very strong from there (in units of `1 / PROB_SCALE`).
pub open spec fn strength_of(edge: int) -> SignalStrength {
    let e = abs(edge);
    if e < 14_400_000 {
        SignalStrength::Weak
    } else if e < 33_600_000 {
        SignalStrength::Moderate
    } else if e < 57_600_000 {
        SignalStrength::Strong
    } else {
        SignalStrength::VeryStrong
    }
}

impl SignalType {
    pub fn as_str(&self) -> (r: &'static str)
        ensures
            r@ == type_text(*self),
    {
        match self {
            SignalType::PeriodicUpdate => "periodic_update",
            SignalType::FirstBlood => "first_blood",
            SignalType::KillSpree => "kill_spree",
            SignalType::TowerKill => "tower_kill",
            SignalType::BarracksKill => "barracks_kill",
            SignalType::RoshanKill => "roshan_kill",
            SignalType::GoldSwing => "gold_swing",
            SignalType::GameStart => "game_start",
            SignalType::LateGame => "late_game",
        }
    }
}

impl SignalStrength {
    /// The strength of an edge given in units of `1 / PROB_SCALE`.
    pub fn from_edge(edge: i64) -> (r: SignalStrength)
        ensures
            r == strength_of(edge as int),
    {
        let abs_edge: i128 = if edge < 0 {
            -(edge as i128)
        } else {
            edge as i128
        };
        if abs_edge < 14_400_000 {
            SignalStrength::Weak
        } else if abs_edge < 33_600_000 {
            SignalStrength::Moderate
        } else if abs_edge < 57_600_000 {
            SignalStrength::Strong
        } else {
            SignalStrength::VeryStrong
        }
    }

    pub fn as_str(&self) -> (r: &'static str)
        ensures
            r@ == strength_text(*self),
    {
        match self {
            SignalStrength::Weak => "weak",
            SignalStrength::Moderate => "moderate",
            SignalStrength::Strong => "strong",
            SignalStrength::VeryStrong => "very_strong",
        }
    }
}

/// Strength is monotone in the size of the edge.
pub proof fn lemma_strength_monotone(e1: int, e2: int)
    requires
        abs(e1) >= abs(e2),
    ensures
        strength_rank(strength_of(e1)) >= strength_rank(strength_of(e2)),
{
}

/// The signal type stored under a name; an unknown name reads as a periodic
/// update.
pub open spec fn type_from_text(s: Seq<char>) -> SignalType {
    if s == "periodic_update"@ {
        SignalType::PeriodicUpdate
    } else if s == "first_blood"@ {
        SignalType::FirstBlood
    } else if s == "kill_spree"@ {
        SignalType::KillSpree
    } else if s == "tower_kill"@ {
        SignalType::TowerKill
    } else if s == "barracks_kill"@ {
        SignalType::BarracksKill
    } else if s == "roshan_kill"@ {
        SignalType::RoshanKill
    } else if s == "gold_swing"@ {
        SignalType::GoldSwing
    } else if s == "game_start"@ {
        SignalType::GameStart
    } else if s == "late_game"@ {
        SignalType::LateGame
    } else {
        SignalType::PeriodicUpdate
    }
}

/// The strength stored under a name; an unknown name reads as weak.
pub open spec fn strength_from_text(s: Seq<char>) -> SignalStrength {
    if s == "weak"@ {
        SignalStrength::Weak
    } else if s == "moderate"@ {
        SignalStrength::Moderate
    } else if s == "strong"@ {
        SignalStrength::Strong
    } else if s == "very_strong"@ {
        SignalStrength::VeryStrong
    } else {
        SignalStrength::Weak
    }
}

/// Reads a stored signal type.
pub fn parse_signal_type(s: &str) -> (r: SignalType)
    ensures
        r == type_from_text(s@),
{
    if same_text(s, "periodic_update") {
        SignalType::PeriodicUpdate
    } else if same_text(s, "first_blood") {
        SignalType::FirstBlood
    } else if same_text(s, "kill_spree") {
        SignalType::KillSpree
    } else if same_text(s, "tower_kill") {
        SignalType::TowerKill
    } else if same_text(s, "barracks_kill") {
        SignalType::BarracksKill
    } else if same_text(s, "roshan_kill") {
        SignalType::RoshanKill
    } else if same_text(s, "gold_swing") {
        SignalType::GoldSwing
    } else if same_text(s, "game_start") {
        SignalType::GameStart
    } else if same_text(s, "late_game") {
        SignalType::LateGame
    } else {
        SignalType::PeriodicUpdate
    }
}

/// Reads a stored strength.
pub fn parse_signal_strength(s: &str) -> (r: SignalStrength)
    ensures
        r == strength_from_text(s@),
{
    if same_text(s, "weak") {
        SignalStrength::Weak
    } else if same_text(s, "moderate") {
        SignalStrength::Moderate
    } else if same_text(s, "strong") {
        SignalStrength::Strong
    } else if same_text(s, "very_strong") {
        SignalStrength::VeryStrong
    } else {
        SignalStrength::Weak
    }
}

/// Reading back the stored name of a signal type gives the type again.
pub proof fn lemma_type_text_round_trip(t: SignalType)
    ensures
        type_from_text(type_text(t)) == t,
{
    reveal_strlit("periodic_update");
    reveal_strlit("first_blood");
    reveal_strlit("kill_spree");
    reveal_strlit("tower_kill");
    reveal_strlit("barracks_kill");
    reveal_strlit("roshan_kill");
    reveal_strlit("gold_swing");
    reveal_strlit("game_start");
    reveal_strlit("late_game");
    let names = seq![
        "periodic_update"@,
        "first_blood"@,
        "kill_spree"@,
        "tower_kill"@,
        "barracks_kill"@,
        "roshan_kill"@,
        "gold_swing"@,
        "game_start"@,
        "late_game"@,
    ];
    assert forall|i: int, j: int| 0 <= i < j < 9 implies names[i] != names[j] by {
        if names[i].len() == names[j].len() {
            assert(names[i][0] != names[j][0] || names[i][1] != names[j][1]);
        }
    }
}

/// Reading back the stored name of a strength gives the strength again.
pub proof fn lemma_strength_text_round_trip(s: SignalStrength)
    ensures
        strength_from_text(strength_text(s)) == s,
{
    reveal_strlit("weak");
    reveal_strlit("moderate");
    reveal_strlit("strong");
    reveal_strlit("very_strong");
    assert("weak"@.len() != "moderate"@.len());
    assert("weak"@.len() != "strong"@.len());
    assert("weak"@.len() != "very_strong"@.len());
    assert("moderate"@.len() != "strong"@.len());
    assert("moderate"@.len() != "very_strong"@.len());
    assert("strong"@.len() != "very_strong"@.len());
}

} // verus!
