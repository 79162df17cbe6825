use vstd::prelude::*;

use crate::building::{
    destroyed_counts,
    lemma_building_state_round_trip,
    ones,
    packed_building_state,
    parse_building_state,
};
use crate::decimal::i64_text;
use crate::models::{LiveMatchState, TeamState, Timestamp};

verus! {

/// Relies on `<i64 as FromStr>::from_str`: an optional `+` or `-` and ASCII
/// digits; anything else, or a value out of range, is an error.
#[verifier::external_body]
fn parse_i64(s: &str) -> (r: Option<i64>)
    ensures
        r == i64_text(s@),
{
    s.parse::<i64>().ok()
}

/// A live match as the provider reports it; absent fields are `None`.
#[derive(Clone, Debug, PartialEq, Eq)]
pub struct OpenDotaLiveMatch {
    /// Decimal text.
    pub match_id: String,
    pub league_id: i64,
    pub team_name_radiant: Option<String>,
    pub team_name_dire: Option<String>,
    pub team_id_radiant: Option<i64>,
    pub team_id_dire: Option<i64>,
    pub radiant_score: Option<i32>,
    pub dire_score: Option<i32>,
    pub radiant_lead: Option<i64>,
    pub game_time: Option<i32>,
    pub building_state: Option<i64>,
}

/// A professional match: it belongs to a league or names its radiant team.
pub open spec fn is_pro(d: OpenDotaLiveMatch) -> bool {
    d.league_id > 0 || (d.team_name_radiant matches Some(n) && n@.len() > 0)
}

pub open spec fn name_or(n: Option<String>, default: Seq<char>) -> Seq<char> {
    match n {
        Some(s) => s@,
        None => default,
    }
}

pub open spec fn or_zero<T>(v: Option<T>, zero: T) -> T {
    match v {
        Some(x) => x,
        None => zero,
    }
}

/// `s` is the state that the record `d` describes at instant `now`. Each side
/// counts the enemy buildings it destroyed.
pub open spec fn is_conversion_of(s: LiveMatchState, d: OpenDotaLiveMatch, now: Timestamp) -> bool {
    let b = destroyed_counts(d.building_state);
    &&& s.match_id == or_zero(i64_text(d.match_id@), 0i64)
    &&& s.league_name is None
    &&& s.radiant.name@ == name_or(d.team_name_radiant, "Radiant"@)
    &&& s.radiant.team_id == d.team_id_radiant
    &&& s.radiant.kills == or_zero(d.radiant_score, 0i32)
    &&& s.radiant.towers_killed == b.1
    &&& s.radiant.barracks_killed == b.3
    &&& s.dire.name@ == name_or(d.team_name_dire, "Dire"@)
    &&& s.dire.team_id == d.team_id_dire
    &&& s.dire.kills == or_zero(d.dire_score, 0i32)
    &&& s.dire.towers_killed == b.0
    &&& s.dire.barracks_killed == b.2
    &&& s.gold_lead == or_zero(d.radiant_lead, 0i64)
    &&& s.game_time == or_zero(d.game_time, 0i32)
    &&& s.is_live
    &&& s.updated_at == now
}

/// The professional records, in order.
pub open spec fn pro_records(ds: Seq<OpenDotaLiveMatch>) -> Seq<OpenDotaLiveMatch>
    decreases ds.len(),
{
    if ds.len() == 0 {
        Seq::empty()
    } else if is_pro(ds.last()) {
        pro_records(ds.drop_last()).push(ds.last())
    } else {
        pro_records(ds.drop_last())
    }
}

/// Whether a record is of a professional match.
pub fn is_pro_match(d: &OpenDotaLiveMatch) -> (r: bool)
    ensures
        r == is_pro(*d),
{
    if d.league_id > 0 {
        return true;
    }
    match &d.team_name_radiant {
        Some(n) => !n.as_str().is_empty(),
        None => false,
    }
}

/// The state that a provider record describes, observed at `now`.
pub fn convert_match(data: OpenDotaLiveMatch, now: Timestamp) -> (r: LiveMatchState)
    ensures
        is_conversion_of(r, data, now),
{
    let ghost d = data;
    let match_id: i64 = match parse_i64(data.match_id.as_str()) {
        Some(v) => v,
        None => 0,
    };
    let (radiant_towers_killed, dire_towers_killed, radiant_rax_killed, dire_rax_killed) =
        parse_building_state(data.building_state);
    let radiant_name = match data.team_name_radiant {
        Some(n) => n,
        None => String::from_str("Radiant"),
    };
    let dire_name = match data.team_name_dire {
        Some(n) => n,
        None => String::from_str("Dire"),
    };
    LiveMatchState {
        match_id,
        league_name: None,
        radiant: TeamState {
            name: radiant_name,
            team_id: data.team_id_radiant,
            kills: match data.radiant_score {
                Some(k) => k,
                None => 0,
            },
            towers_killed: dire_towers_killed,
            barracks_killed: dire_rax_killed,
        },
        dire: TeamState {
            name: dire_name,
            team_id: data.team_id_dire,
            kills: match data.dire_score {
                Some(k) => k,
                None => 0,
            },
            towers_killed: radiant_towers_killed,
            barracks_killed: radiant_rax_killed,
        },
        gold_lead: match data.radiant_lead {
            Some(g) => g,
            None => 0,
        },
        game_time: match data.game_time {
            Some(t) => t,
            None => 0,
        },
        is_live: true,
        updated_at: now,
    }
}

/// The professional matches of a provider response, in order, converted.
pub fn select_pro_matches(data: Vec<OpenDotaLiveMatch>, now: Timestamp) -> (r: Vec<LiveMatchState>)
    ensures
        r@.len() == pro_records(data@).len(),
        forall|i: int|
            0 <= i < r@.len() ==> is_conversion_of(#[trigger] r@[i], pro_records(data@)[i], now),
{
    let mut out: Vec<LiveMatchState> = Vec::new();
    let mut i: usize = 0;
    while i < data.len()
        invariant
            i <= data@.len(),
            out@.len() == pro_records(data@.take(i as int)).len(),
            forall|j: int|
                0 <= j < out@.len() ==> is_conversion_of(
                    #[trigger] out@[j],
                    pro_records(data@.take(i as int))[j],
                    now,
                ),
        decreases data@.len() - i,
    {
        assert(data@.take(i + 1).drop_last() =~= data@.take(i as int));
        if is_pro_match(&data[i]) {
            let state = convert_match(data[i].clone_record(), now);
            out.push(state);
        }
        i = i + 1;
    }
    assert(data@.take(i as int) =~= data@);
    out
}

/// Crossed assignment: for a record whose building state packs the four
/// alive-masks, each side of the converted state counts the enemy's
/// destroyed buildings: radiant holds eleven minus dire's towers alive and six
/// minus dire's barracks alive, and dire the same of radiant's.
pub proof fn lemma_crossed_building_counts(
    s: LiveMatchState,
    d: OpenDotaLiveMatch,
    now: Timestamp,
    r_tow: nat,
    r_rax: nat,
    d_tow: nat,
    d_rax: nat,
)
    requires
        r_tow < 2048,
        r_rax < 64,
        d_tow < 2048,
        d_rax < 16,
        d.building_state == Some(packed_building_state(r_tow, r_rax, d_tow, d_rax) as i64),
        is_conversion_of(s, d, now),
    ensures
        s.radiant.towers_killed == 11 - ones(d_tow, 11),
        s.radiant.barracks_killed == 6 - ones(d_rax, 6),
        s.dire.towers_killed == 11 - ones(r_tow, 11),
        s.dire.barracks_killed == 6 - ones(r_rax, 6),
{
    lemma_building_state_round_trip(r_tow, r_rax, d_tow, d_rax);
}

impl OpenDotaLiveMatch {
    /// A field-for-field copy.
    pub fn clone_record(&self) -> (r: OpenDotaLiveMatch)
        ensures
            r == *self,
    {
        OpenDotaLiveMatch {
            match_id: self.match_id.clone(),
            league_id: self.league_id,
            team_name_radiant: crate::models::copy_opt_text(&self.team_name_radiant),
            team_name_dire: crate::models::copy_opt_text(&self.team_name_dire),
            team_id_radiant: self.team_id_radiant,
            team_id_dire: self.team_id_dire,
            radiant_score: self.radiant_score,
            dire_score: self.dire_score,
            radiant_lead: self.radiant_lead,
            game_time: self.game_time,
            building_state: self.building_state,
        }
    }
}

} // verus!
