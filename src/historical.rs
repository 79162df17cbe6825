use vstd::prelude::*;

use crate::decimal::usize_text;
use crate::models::{copy_opt_text, same_text};
use crate::text::signed_decimal;

verus! {

/// The decimals of a list of integers, separated by commas.
pub open spec fn joined_decimals(v: Seq<i32>) -> Seq<char>
    decreases v.len(),
{
    if v.len() == 0 {
        Seq::empty()
    } else if v.len() == 1 {
        signed_decimal(v[0] as int)
    } else {
        joined_decimals(v.drop_last()) + ","@ + signed_decimal(v.last() as int)
    }
}

/// The compact JSON array of a list of integers: `[1,-2,3]`.
pub open spec fn int_list_json(v: Seq<i32>) -> Seq<char> {
    "["@ + joined_decimals(v) + "]"@
}


/// Relies on `serde_json::to_string` of a `Vec<i32>`: the compact array, each
/// integer in decimal, separated by commas. Serializing integers into memory
/// does not fail.
#[verifier::external_body]
fn int_list_to_json(v: &Vec<i32>) -> (r: String)
    ensures
        r@ == int_list_json(v@),
{
    serde_json::to_string(v).unwrap_or_default()
}

/// Relies on `<usize as FromStr>::from_str`: an optional `+` and ASCII
/// digits; anything else, or a value out of range, is an error.
#[verifier::external_body]
fn parse_usize(s: &str) -> (r: Option<usize>)
    ensures
        r == usize_text(s@),
{
    s.parse::<usize>().ok()
}

/// Summary of a finished professional match.
#[derive(Clone, Debug, PartialEq, Eq)]
pub struct ProMatch {
    pub match_id: i64,
    pub radiant_team_id: Option<i64>,
    pub radiant_name: Option<String>,
    pub dire_team_id: Option<i64>,
    pub dire_name: Option<String>,
    pub radiant_win: Option<bool>,
    pub duration: Option<i32>,
    pub start_time: Option<i64>,
    pub league_name: Option<String>,
}

#[derive(Clone, Debug, PartialEq, Eq)]
pub struct TeamInfo {
    pub team_id: Option<i64>,
    pub name: Option<String>,
    pub tag: Option<String>,
}

#[derive(Clone, Debug, PartialEq, Eq)]
pub struct LeagueInfo {
    pub leagueid: Option<i64>,
    pub name: Option<String>,
}

/// Details of a finished match, with the per-minute gold and experience
/// advantages of radiant.
#[derive(Clone, Debug, PartialEq, Eq)]
pub struct MatchDetails {
    pub match_id: i64,
    pub radiant_win: Option<bool>,
    pub duration: Option<i32>,
    pub start_time: Option<i64>,
    pub radiant_team: Option<TeamInfo>,
    pub dire_team: Option<TeamInfo>,
    pub league: Option<LeagueInfo>,
    pub radiant_gold_adv: Option<Vec<i32>>,
    pub radiant_xp_adv: Option<Vec<i32>>,
}

/// A stored historical match; the advantage series are JSON text.
#[derive(Clone, Debug, PartialEq, Eq)]
pub struct HistoricalMatch {
    pub id: Option<i64>,
    pub match_id: i64,
    pub radiant_team: Option<String>,
    pub dire_team: Option<String>,
    pub radiant_win: bool,
    pub duration: i32,
    pub radiant_gold_adv: String,
    pub radiant_xp_adv: String,
    pub start_time: Option<i64>,
    pub league_name: Option<String>,
    pub fetched_at: String,
}

/// A team of the opendota enrichment API.
#[derive(Clone, Debug, PartialEq, Eq)]
pub struct OpenDotaTeam {
    pub team_id: i64,
    pub name: String,
    pub tag: Option<String>,
    pub logo_url: Option<String>,
}

/// A match of the opendota enrichment API.
#[derive(Clone, Debug, PartialEq, Eq)]
pub struct OpenDotaMatch {
    pub match_id: i64,
    pub radiant_team_id: Option<i64>,
    pub dire_team_id: Option<i64>,
    pub radiant_win: Option<bool>,
    pub duration: Option<i32>,
    pub start_time: Option<i64>,
}

/// The JSON text of a non-empty advantage series.
pub open spec fn series_json(v: Option<Vec<i32>>) -> Option<Seq<char>> {
    match v {
        Some(a) => if a@.len() > 0 {
            Some(int_list_json(a@))
        } else {
            None
        },
        None => None,
    }
}

/// The first name that is present.
pub open spec fn first_name(a: Option<Option<String>>, b: Option<String>) -> Option<String> {
    match a {
        Some(Some(n)) => Some(n),
        _ => b,
    }
}

pub open spec fn team_name(t: Option<TeamInfo>) -> Option<Option<String>> {
    match t {
        Some(i) => Some(i.name),
        None => None,
    }
}

pub open spec fn league_name_of(l: Option<LeagueInfo>) -> Option<Option<String>> {
    match l {
        Some(i) => Some(i.name),
        None => None,
    }
}

/// `h` is the record built from a match's details and summary.
pub open spec fn is_record_of(
    h: HistoricalMatch,
    pro: ProMatch,
    details: MatchDetails,
    fetched_at: Seq<char>,
) -> bool {
    &&& h.id is None
    &&& h.match_id == details.match_id
    &&& h.radiant_team == first_name(team_name(details.radiant_team), pro.radiant_name)
    &&& h.dire_team == first_name(team_name(details.dire_team), pro.dire_name)
    &&& h.radiant_win == (details.radiant_win == Some(true))
    &&& h.duration == (match details.duration {
        Some(d) => d,
        None => 0i32,
    })
    &&& Some(h.radiant_gold_adv@) == series_json(details.radiant_gold_adv)
    &&& Some(h.radiant_xp_adv@) == series_json(details.radiant_xp_adv)
    &&& h.start_time == details.start_time
    &&& h.league_name == first_name(league_name_of(details.league), pro.league_name)
    &&& h.fetched_at@ == fetched_at
}

fn series_text(v: &Option<Vec<i32>>) -> (r: Option<String>)
    ensures
        match r {
            Some(t) => series_json(*v) == Some(t@),
            None => series_json(*v) is None,
        },
{
    match v {
        Some(a) => if a.len() > 0 {
            Some(int_list_to_json(a))
        } else {
            None
        },
        None => None,
    }
}

fn pick_name(a: &Option<TeamInfo>, b: &Option<String>) -> (r: Option<String>)
    ensures
        r == first_name(team_name(*a), *b),
{
    match a {
        Some(TeamInfo { name: Some(n), .. }) => Some(n.clone()),
        _ => copy_opt_text(b),
    }
}

/// The record to store for a match, or `None` when its details lack the gold
/// or the experience series, or either is empty (the match is skipped).
pub fn build_historical_match(pro: &ProMatch, details: &MatchDetails, fetched_at: String) -> (r:
    Option<HistoricalMatch>)
    ensures
        r is Some <==> (details.radiant_gold_adv matches Some(g) && g@.len() > 0)
            && (details.radiant_xp_adv matches Some(x) && x@.len() > 0),
        r matches Some(h) ==> is_record_of(h, *pro, *details, fetched_at@),
{
    let gold = match series_text(&details.radiant_gold_adv) {
        Some(t) => t,
        None => {
            return None;
        },
    };
    let xp = match series_text(&details.radiant_xp_adv) {
        Some(t) => t,
        None => {
            return None;
        },
    };
    let league_name = match &details.league {
        Some(LeagueInfo { name: Some(n), .. }) => Some(n.clone()),
        _ => copy_opt_text(&pro.league_name),
    };
    Some(
        HistoricalMatch {
            id: None,
            match_id: details.match_id,
            radiant_team: pick_name(&details.radiant_team, &pro.radiant_name),
            dire_team: pick_name(&details.dire_team, &pro.dire_name),
            radiant_win: match details.radiant_win {
                Some(w) => w,
                None => false,
            },
            duration: match details.duration {
                Some(d) => d,
                None => 0,
            },
            radiant_gold_adv: gold,
            radiant_xp_adv: xp,
            start_time: details.start_time,
            league_name,
            fetched_at,
        },
    )
}

/// Matches wanted when no count is given.
pub const DEFAULT_COUNT: usize = 1000;

pub open spec fn is_count_flag(s: Seq<char>) -> bool {
    s == "--count"@ || s == "-c"@
}

/// The count given from argument `i` on: the first count flag followed by a
/// number; the default when there is none.
pub open spec fn count_from(args: Seq<String>, i: int) -> usize
    decreases args.len() - i,
{
    if i < 0 || i >= args.len() {
        DEFAULT_COUNT
    } else if is_count_flag(args[i]@) && i + 1 < args.len() && usize_text(args[i + 1]@) is Some {
        usize_text(args[i + 1]@)->0
    } else {
        count_from(args, i + 1)
    }
}

/// The number of matches asked for on the command line (`--count N` or
/// `-c N`).
pub fn parse_count(args: &Vec<String>) -> (r: usize)
    ensures
        r == count_from(args@, 0),
{
    let mut i: usize = 0;
    while i < args.len()
        invariant
            i <= args@.len(),
            count_from(args@, 0) == count_from(args@, i as int),
        decreases args@.len() - i,
    {
        let arg = args[i].as_str();
        if (same_text(arg, "--count") || same_text(arg, "-c")) && i + 1 < args.len() {
            match parse_usize(args[i + 1].as_str()) {
                Some(count) => {
                    return count;
                },
                None => {},
            }
        }
        i = i + 1;
    }
    DEFAULT_COUNT
}

} // verus!
