use vstd::prelude::*;

use std::collections::HashMap;

use crate::models::{LiveMatchState, PolymarketMarket, PROB_SCALE};

verus! {

broadcast use vstd::std_specs::hash::group_hash_axioms;

/// The last observed state of each match of interest, by match id.
pub type LiveMatchCache = HashMap<i64, LiveMatchState>;

/// Odds within [0, 1].
pub open spec fn market_well_formed(m: PolymarketMarket) -> bool {
    0 <= m.team_a_odds <= PROB_SCALE && 0 <= m.team_b_odds <= PROB_SCALE
}

/// Whether a market's odds lie within [0, 1].
pub fn market_is_well_formed(m: &PolymarketMarket) -> (r: bool)
    ensures
        r == market_well_formed(*m),
{
    0 <= m.team_a_odds && m.team_a_odds <= PROB_SCALE && 0 <= m.team_b_odds && m.team_b_odds
        <= PROB_SCALE
}

/// Index of the market with this condition id, or -1.
pub open spec fn position(ms: Seq<PolymarketMarket>, id: Seq<char>) -> int
    decreases ms.len(),
{
    if ms.len() == 0 {
        -1
    } else if ms.last().condition_id@ == id {
        ms.len() - 1
    } else {
        position(ms.drop_last(), id)
    }
}

/// `ms` with `m` stored under its condition id: in place of the market with
/// that id, or at the end.
pub open spec fn with_market(ms: Seq<PolymarketMarket>, m: PolymarketMarket) -> Seq<PolymarketMarket> {
    let p = position(ms, m.condition_id@);
    if p < 0 {
        ms.push(m)
    } else {
        ms.update(p, m)
    }
}

/// The set that a scan result describes: each market stored in turn.
pub open spec fn market_list(found: Seq<PolymarketMarket>) -> Seq<PolymarketMarket>
    decreases found.len(),
{
    if found.len() == 0 {
        Seq::empty()
    } else {
        with_market(market_list(found.drop_last()), found.last())
    }
}

proof fn lemma_position_bounds(ms: Seq<PolymarketMarket>, id: Seq<char>)
    ensures
        -1 <= position(ms, id) < ms.len(),
        position(ms, id) >= 0 ==> ms[position(ms, id)].condition_id@ == id,
    decreases ms.len(),
{
    if ms.len() > 0 {
        lemma_position_bounds(ms.drop_last(), id);
    }
}

proof fn lemma_market_list_well_formed(found: Seq<PolymarketMarket>)
    requires
        forall|i: int| 0 <= i < found.len() ==> market_well_formed(#[trigger] found[i]),
    ensures
        forall|i: int|
            0 <= i < market_list(found).len() ==> market_well_formed(#[trigger] market_list(found)[i]),
    decreases found.len(),
{
    if found.len() > 0 {
        let rest = found.drop_last();
        assert forall|i: int| 0 <= i < rest.len() implies market_well_formed(#[trigger] rest[i]) by {
            assert(rest[i] == found[i]);
        }
        lemma_market_list_well_formed(rest);
        lemma_position_bounds(market_list(rest), found.last().condition_id@);
    }
}

/// The markets being traded, keyed by condition id, in the order first seen.
pub struct ActiveMarkets {
    markets: Vec<PolymarketMarket>,
}

impl View for ActiveMarkets {
    type V = Seq<PolymarketMarket>;

    closed spec fn view(&self) -> Seq<PolymarketMarket> {
        self.markets@
    }
}

impl ActiveMarkets {
    /// Every market has its odds within [0, 1].
    pub open spec fn well_formed(&self) -> bool {
        forall|i: int| 0 <= i < self@.len() ==> market_well_formed(#[trigger] self@[i])
    }

    /// The market stored under a condition id.
    pub open spec fn market(&self, id: Seq<char>) -> Option<PolymarketMarket> {
        let p = position(self@, id);
        if p < 0 {
            None
        } else {
            Some(self@[p])
        }
    }

    /// An empty set.
    pub fn new() -> (r: ActiveMarkets)
        ensures
            r@ == Seq::<PolymarketMarket>::empty(),
            r.well_formed(),
    {
        ActiveMarkets { markets: Vec::new() }
    }

    pub fn len(&self) -> (r: usize)
        ensures
            r == self@.len(),
    {
        self.markets.len()
    }

    pub fn is_empty(&self) -> (r: bool)
        ensures
            r == (self@.len() == 0),
    {
        self.markets.len() == 0
    }

    /// The market at an index, in the order kept.
    pub fn market_at(&self, i: usize) -> (r: &PolymarketMarket)
        requires
            i < self@.len(),
        ensures
            *r == self@[i as int],
    {
        &self.markets[i]
    }

    fn find(&self, id: &String) -> (r: Option<usize>)
        ensures
            r matches Some(p) ==> p == position(self@, id@) && p < self@.len(),
            r is None ==> position(self@, id@) < 0,
    {
        let mut i: usize = self.markets.len();
        assert(self.markets@.take(i as int) =~= self.markets@);
        while i > 0
            invariant
                i <= self.markets@.len(),
                position(self.markets@, id@) == position(self.markets@.take(i as int), id@),
            decreases i,
        {
            assert(self.markets@.take(i as int).drop_last() =~= self.markets@.take(i - 1));
            if self.markets[i - 1].condition_id == *id {
                proof {
                    lemma_position_bounds(self.markets@, id@);
                }
                return Some(i - 1);
            }
            i = i - 1;
        }
        None
    }

    /// Looks a market up by condition id.
    pub fn get(&self, condition_id: &String) -> (r: Option<&PolymarketMarket>)
        ensures
            r matches Some(m) ==> self.market(condition_id@) == Some(*m),
            r matches Some(m) ==> (self.well_formed() ==> market_well_formed(*m)),
            r is None ==> self.market(condition_id@) is None,
    {
        proof {
            lemma_position_bounds(self@, condition_id@);
        }
        match self.find(condition_id) {
            Some(p) => Some(&self.markets[p]),
            None => None,
        }
    }

    fn insert(&mut self, market: PolymarketMarket)
        ensures
            final(self)@ == with_market(old(self)@, market),
    {
        match self.find(&market.condition_id) {
            Some(p) => {
                self.markets.set(p, market);
            },
            None => {
                self.markets.push(market);
            },
        }
    }

    /// Replaces the whole set with the result of a scan. Nothing of the
    /// previous set remains: the new set is exactly the scan's markets, each
    /// stored under its condition id.
    pub fn replace_all(&mut self, found: Vec<PolymarketMarket>)
        requires
            forall|i: int| 0 <= i < found@.len() ==> market_well_formed(#[trigger] found@[i]),
        ensures
            final(self)@ == market_list(found@),
            final(self).well_formed(),
    {
        self.markets = Vec::new();
        let mut i: usize = 0;
        while i < found.len()
            invariant
                i <= found@.len(),
                self@ == market_list(found@.take(i as int)),
            decreases found@.len() - i,
        {
            let m = found[i].copied();
            assert(found@.take(i + 1).drop_last() =~= found@.take(i as int));
            self.insert(m);
            i = i + 1;
        }
        let ghost all = found@;
        assert(all.take(i as int) =~= all);
        proof {
            lemma_market_list_well_formed(all);
        }
    }
}

} // verus!
