use vstd::prelude::*;

use crate::markets::{ActiveMarkets, LiveMatchCache};
use crate::models::{LiveMatchState, MatchUpdate, PolymarketMarket};
use crate::resolver::{first_pairing, TeamResolver};

verus! {

broadcast use vstd::std_specs::hash::group_hash_axioms;

/// The live match that the market pairs up with first, if any.
pub open spec fn paired_match(r: &TeamResolver, m: PolymarketMarket, live: Seq<LiveMatchState>) -> Option<
    LiveMatchState,
> {
    if exists|i: int| first_pairing(r, m, live, i) {
        let i = choose|i: int| first_pairing(r, m, live, i);
        Some(live[i])
    } else {
        None
    }
}

/// One pass of the fetcher over the markets in order: each market paired with
/// a live match yields an update carrying the cached state of that match as
/// its previous state, and the cache then holds the new state. Returns the
/// updates and the cache after the pass.
pub open spec fn fetch_pass(
    r: &TeamResolver,
    markets: Seq<PolymarketMarket>,
    live: Seq<LiveMatchState>,
    cache: Map<i64, LiveMatchState>,
) -> (Seq<MatchUpdate>, Map<i64, LiveMatchState>)
    decreases markets.len(),
{
    if markets.len() == 0 {
        (Seq::empty(), cache)
    } else {
        let (updates, c) = fetch_pass(r, markets.drop_last(), live, cache);
        let m = markets.last();
        match paired_match(r, m, live) {
            None => (updates, c),
            Some(state) => {
                let update = MatchUpdate {
                    market_condition_id: m.condition_id,
                    state,
                    previous_state: if c.contains_key(state.match_id) {
                        Some(c[state.match_id])
                    } else {
                        None
                    },
                };
                (updates.push(update), c.insert(state.match_id, state))
            },
        }
    }
}

/// A poll that found no live match changes nothing: no update, and the cache
/// as it was.
pub proof fn lemma_empty_poll_is_idle(
    r: &TeamResolver,
    markets: Seq<PolymarketMarket>,
    cache: Map<i64, LiveMatchState>,
)
    ensures
        fetch_pass(r, markets, Seq::empty(), cache) == (Seq::<MatchUpdate>::empty(), cache),
    decreases markets.len(),
{
    if markets.len() > 0 {
        lemma_empty_poll_is_idle(r, markets.drop_last(), cache);
        assert(!exists|i: int| first_pairing(r, markets.last(), Seq::<LiveMatchState>::empty(), i));
    }
}

proof fn lemma_first_pairing_unique(
    r: &TeamResolver,
    m: PolymarketMarket,
    live: Seq<LiveMatchState>,
    i: int,
    j: int,
)
    requires
        first_pairing(r, m, live, i),
        first_pairing(r, m, live, j),
    ensures
        i == j,
{
    if i < j {
        assert(!crate::resolver::teams_pair_up(r, m, live[i]));
    } else if j < i {
        assert(!crate::resolver::teams_pair_up(r, m, live[j]));
    }
}

/// Pairs every active market with the live matches, in the markets' order,
/// and records each paired match in the cache. A market paired with no live
/// match yields nothing, and a live match paired with no market is not cached.
pub fn collect_updates(
    resolver: &TeamResolver,
    markets: &ActiveMarkets,
    live_matches: &[LiveMatchState],
    cache: &mut LiveMatchCache,
) -> (r: Vec<MatchUpdate>)
    ensures
        (r@, final(cache)@) == fetch_pass(resolver, markets@, live_matches@, old(cache)@),
{
    let mut updates: Vec<MatchUpdate> = Vec::new();
    let mut i: usize = 0;
    let n = markets.len();
    while i < n
        invariant
            n == markets@.len(),
            i <= n,
            (updates@, cache@) == fetch_pass(
                resolver,
                markets@.take(i as int),
                live_matches@,
                old(cache)@,
            ),
        decreases n - i,
    {
        let market = markets.market_at(i);
        let ghost prefix = markets@.take(i + 1);
        assert(prefix.drop_last() =~= markets@.take(i as int));
        assert(prefix.last() == *market);
        match resolver.match_market_to_live(market, live_matches) {
            Some(res) => {
                proof {
                    let k = choose|k: int|
                        first_pairing(resolver, *market, live_matches@, k) && res.match_state
                            == live_matches@[k];
                    let c = choose|c: int| first_pairing(resolver, *market, live_matches@, c);
                    lemma_first_pairing_unique(resolver, *market, live_matches@, k, c);
                }
                let id = res.match_state.match_id;
                let previous = match cache.get(&id) {
                    Some(p) => Some(p.copied()),
                    None => None,
                };
                cache.insert(id, res.match_state.copied());
                updates.push(
                    MatchUpdate {
                        market_condition_id: market.condition_id.clone(),
                        state: res.match_state,
                        previous_state: previous,
                    },
                );
            },
            None => {},
        }
        i = i + 1;
    }
    assert(markets@.take(n as int) =~= markets@);
    updates
}

} // verus!
