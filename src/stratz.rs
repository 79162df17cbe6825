use vstd::prelude::*;

use crate::building::{count_low_ones, ones};
use crate::live_data::{name_or, or_zero};
use crate::models::{copy_opt_text, LiveMatchState, TeamState, Timestamp};

verus! {

/// A team as the GraphQL provider reports it.
#[derive(Clone, Debug, PartialEq, Eq)]
pub struct StratzTeam {
    pub id: Option<i64>,
    pub name: Option<String>,
}

/// Alive-masks of each side's buildings, one bit per building.
#[derive(Clone, Copy, Debug, PartialEq, Eq, Structural)]
pub struct StratzBuildingState {
    pub radiant_tower_state: Option<i32>,
    pub dire_tower_state: Option<i32>,
    pub radiant_barracks_state: Option<i32>,
    pub dire_barracks_state: Option<i32>,
}

/// A live match as the GraphQL provider reports it.
#[derive(Clone, Debug, PartialEq, Eq)]
pub struct StratzLiveMatch {
    pub match_id: i64,
    pub game_time: Option<i32>,
    pub radiant_team: Option<StratzTeam>,
    pub dire_team: Option<StratzTeam>,
    pub league_display_name: Option<String>,
    pub radiant_score: Option<i32>,
    pub dire_score: Option<i32>,
    pub building_state: Option<StratzBuildingState>,
    pub radiant_net_worth: Option<i64>,
    pub dire_net_worth: Option<i64>,
}

/// Buildings of a kind destroyed out of `capacity`, from an alive-mask of all
/// 32 bits; an absent mask means every building stands.
pub open spec fn destroyed_of(mask: Option<i32>, capacity: int, full: i32) -> int {
    capacity - ones(or_zero(mask, full) as u32 as nat, 32)
}

/// Destroyed (radiant, dire) towers.
pub open spec fn towers_destroyed(b: Option<StratzBuildingState>) -> (int, int) {
    match b {
        None => (0, 0),
        Some(s) => (destroyed_of(s.radiant_tower_state, 11, 2047), destroyed_of(s.dire_tower_state, 11, 2047)),
    }
}

/// Destroyed (radiant, dire) barracks.
pub open spec fn barracks_destroyed(b: Option<StratzBuildingState>) -> (int, int) {
    match b {
        None => (0, 0),
        Some(s) => (
            destroyed_of(s.radiant_barracks_state, 6, 63),
            destroyed_of(s.dire_barracks_state, 6, 63),
        ),
    }
}

/// Radiant's net worth minus dire's, absent values taken as zero, limited to
/// the range of `i64`.
pub open spec fn net_worth_lead(d: StratzLiveMatch) -> int {
    let lead = or_zero(d.radiant_net_worth, 0i64) - or_zero(d.dire_net_worth, 0i64);
    if lead > i64::MAX {
        i64::MAX as int
    } else if lead < i64::MIN {
        i64::MIN as int
    } else {
        lead
    }
}

pub open spec fn team_name_of(t: Option<StratzTeam>) -> Option<String> {
    match t {
        Some(team) => team.name,
        None => None,
    }
}

pub open spec fn team_id_of(t: Option<StratzTeam>) -> Option<i64> {
    match t {
        Some(team) => team.id,
        None => None,
    }
}

/// `s` is the state that the record `d` describes at instant `now`; each side
/// counts the enemy buildings it destroyed.
pub open spec fn is_stratz_conversion_of(s: LiveMatchState, d: StratzLiveMatch, now: Timestamp) -> bool {
    let t = towers_destroyed(d.building_state);
    let b = barracks_destroyed(d.building_state);
    &&& s.match_id == d.match_id
    &&& s.league_name == d.league_display_name
    &&& s.radiant.name@ == name_or(team_name_of(d.radiant_team), "Radiant"@)
    &&& s.radiant.team_id == team_id_of(d.radiant_team)
    &&& s.radiant.kills == or_zero(d.radiant_score, 0i32)
    &&& s.radiant.towers_killed == t.1
    &&& s.radiant.barracks_killed == b.1
    &&& s.dire.name@ == name_or(team_name_of(d.dire_team), "Dire"@)
    &&& s.dire.team_id == team_id_of(d.dire_team)
    &&& s.dire.kills == or_zero(d.dire_score, 0i32)
    &&& s.dire.towers_killed == t.0
    &&& s.dire.barracks_killed == b.0
    &&& s.gold_lead == net_worth_lead(d)
    &&& s.game_time == or_zero(d.game_time, 0i32)
    &&& s.is_live
    &&& s.updated_at == now
}

fn destroyed_count(mask: Option<i32>, capacity: i32, full: i32) -> (r: i32)
    requires
        0 <= capacity <= 11,
    ensures
        r == destroyed_of(mask, capacity as int, full),
{
    let m: i32 = match mask {
        Some(v) => v,
        None => full,
    };
    let alive = count_low_ones(m as u32, 32);
    capacity - alive as i32
}

/// Destroyed (radiant, dire) towers of a building state.
pub fn count_towers_killed(state: &Option<StratzBuildingState>) -> (r: (i32, i32))
    ensures
        (r.0 as int, r.1 as int) == towers_destroyed(*state),
{
    match state {
        None => (0, 0),
        Some(s) => (
            destroyed_count(s.radiant_tower_state, 11, 2047),
            destroyed_count(s.dire_tower_state, 11, 2047),
        ),
    }
}

/// Destroyed (radiant, dire) barracks of a building state.
pub fn count_barracks_killed(state: &Option<StratzBuildingState>) -> (r: (i32, i32))
    ensures
        (r.0 as int, r.1 as int) == barracks_destroyed(*state),
{
    match state {
        None => (0, 0),
        Some(s) => (
            destroyed_count(s.radiant_barracks_state, 6, 63),
            destroyed_count(s.dire_barracks_state, 6, 63),
        ),
    }
}

fn team_fields(t: &Option<StratzTeam>) -> (r: (Option<String>, Option<i64>))
    ensures
        r.0 == team_name_of(*t),
        r.1 == team_id_of(*t),
{
    match t {
        Some(team) => (copy_opt_text(&team.name), team.id),
        None => (None, None),
    }
}

/// The state that a GraphQL record describes, observed at `now`.
pub fn convert_match_data(data: &StratzLiveMatch, now: Timestamp) -> (r: LiveMatchState)
    ensures
        is_stratz_conversion_of(r, *data, now),
{
    let (radiant_towers, dire_towers) = count_towers_killed(&data.building_state);
    let (radiant_rax, dire_rax) = count_barracks_killed(&data.building_state);
    let radiant_nw: i128 = match data.radiant_net_worth {
        Some(v) => v as i128,
        None => 0,
    };
    let dire_nw: i128 = match data.dire_net_worth {
        Some(v) => v as i128,
        None => 0,
    };
    let lead: i128 = radiant_nw - dire_nw;
    let gold_lead: i64 = if lead > i64::MAX as i128 {
        i64::MAX
    } else if lead < i64::MIN as i128 {
        i64::MIN
    } else {
        lead as i64
    };
    let (radiant_name, radiant_id) = team_fields(&data.radiant_team);
    let (dire_name, dire_id) = team_fields(&data.dire_team);
    LiveMatchState {
        match_id: data.match_id,
        league_name: copy_opt_text(&data.league_display_name),
        radiant: TeamState {
            name: match radiant_name {
                Some(n) => n,
                None => String::from_str("Radiant"),
            },
            team_id: radiant_id,
            kills: match data.radiant_score {
                Some(k) => k,
                None => 0,
            },
            towers_killed: dire_towers,
            barracks_killed: dire_rax,
        },
        dire: TeamState {
            name: match dire_name {
                Some(n) => n,
                None => String::from_str("Dire"),
            },
            team_id: dire_id,
            kills: match data.dire_score {
                Some(k) => k,
                None => 0,
            },
            towers_killed: radiant_towers,
            barracks_killed: radiant_rax,
        },
        gold_lead,
        game_time: match data.game_time {
            Some(t) => t,
            None => 0,
        },
        is_live: true,
        updated_at: now,
    }
}

} // verus!
