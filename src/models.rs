use vstd::prelude::*;

verus! {

/// A UTC instant: whole seconds since the Unix epoch and the nanoseconds
/// within that second.
#[derive(Clone, Copy, Debug, PartialEq, Eq, Structural)]
pub struct Timestamp {
    pub unix_seconds: i64,
    pub nanos: u32,
}

/// State of a team in a live match. The building counters hold what this
/// team has destroyed of the enemy's buildings.
#[derive(Clone, Debug, PartialEq, Eq)]
pub struct TeamState {
    pub name: String,
    pub team_id: Option<i64>,
    pub kills: i32,
    pub towers_killed: i32,
    pub barracks_killed: i32,
}

/// One observation of a live match.
#[derive(Clone, Debug, PartialEq, Eq)]
pub struct LiveMatchState {
    pub match_id: i64,
    pub league_name: Option<String>,
    pub radiant: TeamState,
    pub dire: TeamState,
    /// Radiant's gold minus dire's.
    pub gold_lead: i64,
    /// Seconds; negative while the draft is on.
    pub game_time: i32,
    pub is_live: bool,
    pub updated_at: Timestamp,
}

/// Event handed from the fetcher to the processor.
#[derive(Clone, Debug, PartialEq, Eq)]
pub struct MatchUpdate {
    pub market_condition_id: String,
    pub state: LiveMatchState,
    /// `None` exactly on the first observation of this market and match.
    pub previous_state: Option<LiveMatchState>,
}

/// A two-outcome moneyline market. Odds are implied probabilities held as
/// multiples of `1 / PROB_SCALE`.
#[derive(Clone, Debug, PartialEq, Eq)]
pub struct PolymarketMarket {
    pub condition_id: String,
    pub question: String,
    pub team_a: String,
    pub team_b: String,
    pub team_a_odds: i64,
    pub team_b_odds: i64,
    /// Liquidity in hundredths of a US dollar.
    pub liquidity_cents: i64,
    pub end_date: Option<Timestamp>,
    pub active: bool,
}

/// Probabilities, odds and edges are held as exact multiples of
/// `1 / PROB_SCALE`; every coefficient of the win-probability model is a
/// whole number of such units.
pub const PROB_SCALE: i64 = 480_000_000;

/// Whether two strings hold the same characters.
pub fn same_text(a: &str, b: &str) -> (r: bool)
    ensures
        r == (a@ == b@),
{
    a.to_owned() == b.to_owned()
}

pub fn copy_text(s: &String) -> (r: String)
    ensures
        r == *s,
{
    s.clone()
}

pub fn copy_opt_text(s: &Option<String>) -> (r: Option<String>)
    ensures
        r == *s,
{
    match s {
        Some(t) => Some(t.clone()),
        None => None,
    }
}

impl TeamState {
    /// A field-for-field copy.
    pub fn copied(&self) -> (r: TeamState)
        ensures
            r == *self,
    {
        TeamState {
            name: self.name.clone(),
            team_id: self.team_id,
            kills: self.kills,
            towers_killed: self.towers_killed,
            barracks_killed: self.barracks_killed,
        }
    }
}

impl Default for TeamState {
    fn default() -> (r: TeamState)
        ensures
            r.name@.len() == 0,
            r.team_id.is_none(),
            r.kills == 0,
            r.towers_killed == 0,
            r.barracks_killed == 0,
    {
        TeamState {
            name: String::new(),
            team_id: None,
            kills: 0,
            towers_killed: 0,
            barracks_killed: 0,
        }
    }
}

impl LiveMatchState {
    /// A field-for-field copy.
    pub fn copied(&self) -> (r: LiveMatchState)
        ensures
            r == *self,
    {
        LiveMatchState {
            match_id: self.match_id,
            league_name: copy_opt_text(&self.league_name),
            radiant: self.radiant.copied(),
            dire: self.dire.copied(),
            gold_lead: self.gold_lead,
            game_time: self.game_time,
            is_live: self.is_live,
            updated_at: self.updated_at,
        }
    }
}

impl PolymarketMarket {
    /// A field-for-field copy.
    pub fn copied(&self) -> (r: PolymarketMarket)
        ensures
            r == *self,
    {
        PolymarketMarket {
            condition_id: self.condition_id.clone(),
            question: self.question.clone(),
            team_a: self.team_a.clone(),
            team_b: self.team_b.clone(),
            team_a_odds: self.team_a_odds,
            team_b_odds: self.team_b_odds,
            liquidity_cents: self.liquidity_cents,
            end_date: self.end_date,
            active: self.active,
        }
    }
}

} // verus!
