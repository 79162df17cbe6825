use vstd::prelude::*;

use crate::decimal::{
    at_most_one, decimal_reading, lemma_at_most_one_scaled, read_decimal, units_of,
};
use crate::models::{same_text, PolymarketMarket, Timestamp, PROB_SCALE};
use crate::resolver::{trim_of, trimmed};

verus! {

/// What `serde_json::from_str::<Vec<String>>` returns for a text: the strings
/// of a JSON array of strings, or `None` for any other text.
pub uninterp spec fn json_string_list(s: Seq<char>) -> Option<Seq<Seq<char>>>;

/// What `chrono::DateTime::parse_from_rfc3339` returns for a text, as seconds
/// since the epoch and subsecond nanoseconds.
pub uninterp spec fn rfc3339_instant(s: Seq<char>) -> Option<(i64, u32)>;

/// What `chrono::NaiveDate::parse_from_str` returns for a text with the format
/// `%Y-%m-%d`, as the seconds since the epoch of that day's midnight, UTC.
pub uninterp spec fn calendar_date_midnight(s: Seq<char>) -> Option<i64>;

/// Relies on `serde_json::from_str` into a `Vec<String>`.
#[verifier::external_body]
fn parse_string_list(s: &str) -> (r: Option<Vec<String>>)
    ensures
        match r {
            Some(v) => json_string_list(s@) == Some(v@.map_values(|x: String| x@)),
            None => json_string_list(s@) is None,
        },
{
    serde_json::from_str::<Vec<String>>(s).ok()
}

/// Relies on `chrono::DateTime::parse_from_rfc3339` and the instant's
/// `timestamp` and `timestamp_subsec_nanos`.
#[verifier::external_body]
fn parse_rfc3339(s: &str) -> (r: Option<Timestamp>)
    ensures
        match r {
            Some(t) => rfc3339_instant(s@) == Some((t.unix_seconds, t.nanos)),
            None => rfc3339_instant(s@) is None,
        },
{
    match chrono::DateTime::parse_from_rfc3339(s) {
        Ok(dt) => Some(Timestamp { unix_seconds: dt.timestamp(), nanos: dt.timestamp_subsec_nanos() }),
        Err(_) => None,
    }
}

/// Relies on `chrono::NaiveDate::parse_from_str` with `%Y-%m-%d`, and on the
/// date's midnight taken as UTC.
#[verifier::external_body]
fn parse_calendar_date(s: &str) -> (r: Option<i64>)
    ensures
        r == calendar_date_midnight(s@),
{
    match chrono::NaiveDate::parse_from_str(s, "%Y-%m-%d") {
        Ok(d) => match d.and_hms_opt(0, 0, 0) {
            Some(t) => Some(t.and_utc().timestamp()),
            None => None,
        },
        Err(_) => None,
    }
}

/// An event listed in the series.
#[derive(Clone, Debug, PartialEq, Eq)]
pub struct SeriesEvent {
    pub id: String,
    pub active: bool,
    pub closed: bool,
}

/// A market as an event lists it. `outcomes` and `outcome_prices` are JSON
/// arrays of strings, encoded as text.
#[derive(Clone, Debug, PartialEq, Eq)]
pub struct MarketResponse {
    pub condition_id: String,
    pub question: String,
    pub outcomes: String,
    pub outcome_prices: String,
    pub liquidity: Option<String>,
    /// The numeric liquidity, in hundredths of a dollar.
    pub liquidity_num_cents: Option<i64>,
    pub active: bool,
    pub closed: bool,
    pub end_date_iso: Option<String>,
    pub sports_market_type: Option<String>,
}

/// An event with its markets.
#[derive(Clone, Debug, PartialEq, Eq)]
pub struct EventResponse {
    pub id: String,
    pub title: String,
    pub active: bool,
    pub closed: bool,
    pub markets: Vec<MarketResponse>,
}

/// Ids of the events that are active and not closed, in order.
pub open spec fn open_event_ids(es: Seq<SeriesEvent>) -> Seq<Seq<char>>
    decreases es.len(),
{
    if es.len() == 0 {
        Seq::empty()
    } else if es.last().active && !es.last().closed {
        open_event_ids(es.drop_last()).push(es.last().id@)
    } else {
        open_event_ids(es.drop_last())
    }
}

/// A probability in units of `1 / PROB_SCALE`, rounded down, read from a
/// decimal number whose value lies in [0, 1].
pub open spec fn price_units(t: Seq<char>) -> Option<int> {
    match decimal_reading(t) {
        Some((neg, d, e)) => if (neg && d > 0) || !at_most_one(d, e) {
            None
        } else {
            Some(units_of(d, e, PROB_SCALE as nat) as int)
        },
        None => None,
    }
}

/// Liquidity in cents: the numeric field, else the text field read as a
/// decimal number (rounded toward zero; zero when out of range), else zero.
pub open spec fn liquidity_of(m: MarketResponse) -> i64 {
    match m.liquidity_num_cents {
        Some(c) => c,
        None => match m.liquidity {
            Some(t) => match decimal_reading(t@) {
                Some((neg, d, e)) => if units_of(d, e, 100) > i64::MAX {
                    0
                } else if neg {
                    -(units_of(d, e, 100) as int) as i64
                } else {
                    units_of(d, e, 100) as i64
                },
                None => 0,
            },
            None => 0,
        },
    }
}

/// The end date: RFC 3339 first, else a calendar date at midnight UTC.
pub open spec fn end_date_of(text: Option<String>) -> Option<Timestamp> {
    match text {
        None => None,
        Some(t) => match rfc3339_instant(t@) {
            Some(i) => Some(Timestamp { unix_seconds: i.0, nanos: i.1 }),
            None => match calendar_date_midnight(t@) {
                Some(secs) => Some(Timestamp { unix_seconds: secs, nanos: 0 }),
                None => None,
            },
        },
    }
}

/// The market's outcomes and prices decode: two names and two prices in [0, 1].
pub open spec fn market_decodes(m: MarketResponse) -> bool {
    &&& json_string_list(m.outcomes@) matches Some(o) && o.len() == 2
    &&& json_string_list(m.outcome_prices@) matches Some(p) && p.len() == 2 && price_units(p[0])
        is Some && price_units(p[1]) is Some
}

/// `pm` is the market that the decodable response `m` describes.
pub open spec fn is_market_of(pm: PolymarketMarket, m: MarketResponse) -> bool {
    let o = json_string_list(m.outcomes@)->0;
    let p = json_string_list(m.outcome_prices@)->0;
    &&& pm.condition_id == m.condition_id
    &&& pm.question == m.question
    &&& pm.team_a@ == trim_of(o[0])
    &&& pm.team_b@ == trim_of(o[1])
    &&& pm.team_a_odds == price_units(p[0])->0
    &&& pm.team_b_odds == price_units(p[1])->0
    &&& pm.liquidity_cents == liquidity_of(m)
    &&& pm.end_date == end_date_of(m.end_date_iso)
    &&& pm.active == (m.active && !m.closed)
}

/// A moneyline market that is active and not closed.
pub open spec fn is_tradable(m: MarketResponse) -> bool {
    &&& m.sports_market_type matches Some(t) && t@ == "moneyline"@
    &&& m.active
    &&& !m.closed
}

/// The markets of a list that are tradable and decode, in order.
pub open spec fn kept_markets(ms: Seq<MarketResponse>) -> Seq<MarketResponse>
    decreases ms.len(),
{
    if ms.len() == 0 {
        Seq::empty()
    } else if is_tradable(ms.last()) && market_decodes(ms.last()) {
        kept_markets(ms.drop_last()).push(ms.last())
    } else {
        kept_markets(ms.drop_last())
    }
}

/// Ids of the series' events that are active and not closed.
pub fn active_event_ids(events: &Vec<SeriesEvent>) -> (r: Vec<String>)
    ensures
        r@.map_values(|x: String| x@) == open_event_ids(events@),
{
    let mut ids: Vec<String> = Vec::new();
    let mut i: usize = 0;
    while i < events.len()
        invariant
            i <= events@.len(),
            ids@.map_values(|x: String| x@) == open_event_ids(events@.take(i as int)),
        decreases events@.len() - i,
    {
        assert(events@.take(i + 1).drop_last() =~= events@.take(i as int));
        let e = &events[i];
        if e.active && !e.closed {
            let ghost before = ids@;
            ids.push(e.id.clone());
            assert(ids@.map_values(|x: String| x@) =~= before.map_values(|x: String| x@).push(
                e.id@,
            ));
        }
        i = i + 1;
    }
    assert(events@.take(i as int) =~= events@);
    ids
}

/// Whether a market is a moneyline market that is active and not closed.
pub fn is_tradable_market(m: &MarketResponse) -> (r: bool)
    ensures
        r == is_tradable(*m),
{
    let moneyline = match &m.sports_market_type {
        Some(t) => same_text(t.as_str(), "moneyline"),
        None => false,
    };
    moneyline && m.active && !m.closed
}

fn read_price(t: &String) -> (r: Option<i64>)
    ensures
        match r {
            Some(v) => price_units(t@) == Some(v as int),
            None => price_units(t@) is None,
        },
{
    let r = match read_decimal(t.as_str(), PROB_SCALE as u64, PROB_SCALE as u128) {
        Some(r) => r,
        None => {
            return None;
        },
    };
    proof {
        let (neg, d, e) = decimal_reading(t@)->0;
        lemma_at_most_one_scaled(d, e, PROB_SCALE as nat);
    }
    if r.negative && r.nonzero {
        return None;
    }
    match r.units {
        Some(u) => if u < PROB_SCALE as u128 || (u == PROB_SCALE as u128 && r.exact) {
            Some(u as i64)
        } else {
            None
        },
        None => None,
    }
}

/// Liquidity in cents.
pub fn decode_liquidity(m: &MarketResponse) -> (r: i64)
    ensures
        r == liquidity_of(*m),
{
    match m.liquidity_num_cents {
        Some(c) => c,
        None => match &m.liquidity {
            Some(t) => match read_decimal(t.as_str(), 100, i64::MAX as u128) {
                Some(r) => match r.units {
                    Some(u) => if r.negative {
                        -(u as i64)
                    } else {
                        u as i64
                    },
                    None => 0,
                },
                None => 0,
            },
            None => 0,
        },
    }
}

/// The end date: RFC 3339 first, else a calendar date at midnight UTC, else none.
pub fn decode_end_date(text: &Option<String>) -> (r: Option<Timestamp>)
    ensures
        r == end_date_of(*text),
{
    match text {
        None => None,
        Some(t) => match parse_rfc3339(t.as_str()) {
            Some(instant) => Some(instant),
            None => match parse_calendar_date(t.as_str()) {
                Some(secs) => Some(Timestamp { unix_seconds: secs, nanos: 0 }),
                None => None,
            },
        },
    }
}

/// The market that a response describes, or `None` when its outcomes or
/// prices do not decode to two names and two prices in [0, 1].
pub fn convert_market(m: &MarketResponse) -> (r: Option<PolymarketMarket>)
    ensures
        r is Some <==> market_decodes(*m),
        r matches Some(pm) ==> is_market_of(pm, *m),
{
    let outcomes = match parse_string_list(m.outcomes.as_str()) {
        Some(v) => v,
        None => {
            return None;
        },
    };
    let prices = match parse_string_list(m.outcome_prices.as_str()) {
        Some(v) => v,
        None => {
            return None;
        },
    };
    if outcomes.len() != 2 || prices.len() != 2 {
        return None;
    }
    let ghost o = outcomes@.map_values(|x: String| x@);
    let ghost p = prices@.map_values(|x: String| x@);
    assert(o[0] == outcomes@[0]@ && o[1] == outcomes@[1]@);
    assert(p[0] == prices@[0]@ && p[1] == prices@[1]@);
    let team_a = trimmed(outcomes[0].as_str()).to_owned();
    let team_b = trimmed(outcomes[1].as_str()).to_owned();
    let team_a_odds = match read_price(&prices[0]) {
        Some(v) => v,
        None => {
            return None;
        },
    };
    let team_b_odds = match read_price(&prices[1]) {
        Some(v) => v,
        None => {
            return None;
        },
    };
    Some(
        PolymarketMarket {
            condition_id: m.condition_id.clone(),
            question: m.question.clone(),
            team_a,
            team_b,
            team_a_odds,
            team_b_odds,
            liquidity_cents: decode_liquidity(m),
            end_date: decode_end_date(&m.end_date_iso),
            active: m.active && !m.closed,
        },
    )
}

/// The tradable markets of an event that decode, in order; none when the
/// event itself is inactive or closed.
pub fn event_markets(event: &EventResponse) -> (r: Vec<PolymarketMarket>)
    ensures
        !event.active || event.closed ==> r@.len() == 0,
        event.active && !event.closed ==> r@.len() == kept_markets(event.markets@).len() && forall|
            i: int,
        |
            0 <= i < r@.len() ==> is_market_of(#[trigger] r@[i], kept_markets(event.markets@)[i]),
{
    let mut out: Vec<PolymarketMarket> = Vec::new();
    if !event.active || event.closed {
        return out;
    }
    let mut i: usize = 0;
    while i < event.markets.len()
        invariant
            i <= event.markets@.len(),
            out@.len() == kept_markets(event.markets@.take(i as int)).len(),
            forall|j: int|
                0 <= j < out@.len() ==> is_market_of(
                    #[trigger] out@[j],
                    kept_markets(event.markets@.take(i as int))[j],
                ),
        decreases event.markets@.len() - i,
    {
        assert(event.markets@.take(i + 1).drop_last() =~= event.markets@.take(i as int));
        let m = &event.markets[i];
        if is_tradable_market(m) {
            match convert_market(m) {
                Some(pm) => {
                    out.push(pm);
                },
                None => {},
            }
        }
        i = i + 1;
    }
    assert(event.markets@.take(i as int) =~= event.markets@);
    out
}

} // verus!
