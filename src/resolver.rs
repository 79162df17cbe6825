use vstd::prelude::*;

use crate::models::{LiveMatchState, PolymarketMarket};

verus! {

/// What `str::to_lowercase` returns for a string.
pub uninterp spec fn lower_of(s: Seq<char>) -> Seq<char>;

/// The characters with the Unicode White_Space property.
pub open spec fn is_white_space(c: char) -> bool {
    ('\u{9}' <= c && c <= '\u{d}') || c == ' ' || c == '\u{85}' || c == '\u{a0}' || c
        == '\u{1680}' || ('\u{2000}' <= c && c <= '\u{200a}') || c == '\u{2028}' || c
        == '\u{2029}' || c == '\u{202f}' || c == '\u{205f}' || c == '\u{3000}'
}

/// `s` without its leading white space.
pub open spec fn trim_start_of(s: Seq<char>) -> Seq<char>
    decreases s.len(),
{
    if s.len() > 0 && is_white_space(s[0]) {
        trim_start_of(s.drop_first())
    } else {
        s
    }
}

/// `s` without its trailing white space.
pub open spec fn trim_end_of(s: Seq<char>) -> Seq<char>
    decreases s.len(),
{
    if s.len() > 0 && is_white_space(s.last()) {
        trim_end_of(s.drop_last())
    } else {
        s
    }
}

/// `s` without leading and trailing white space.
pub open spec fn trim_of(s: Seq<char>) -> Seq<char> {
    trim_end_of(trim_start_of(s))
}

/// Relies on `str::to_lowercase`: the Unicode lowercase mapping, which depends
/// on the characters alone.
#[verifier::external_body]
fn lowercase(s: &str) -> (r: String)
    ensures
        r@ == lower_of(s@),
{
    s.to_lowercase()
}

/// Relies on `str::trim`: the string without leading and trailing characters
/// that have the Unicode White_Space property.
#[verifier::external_body]
pub(crate) fn trimmed<'a>(s: &'a str) -> (r: &'a str)
    ensures
        r@ == trim_of(s@),
{
    s.trim()
}

/// The form in which names are compared: trimmed, then lowercased.
pub open spec fn key_of(name: Seq<char>) -> Seq<char> {
    lower_of(trim_of(name))
}

/// The alias of the latest entry whose key is `key`.
pub open spec fn find_alias(entries: Seq<(String, String)>, key: Seq<char>) -> Option<Seq<char>>
    decreases entries.len(),
{
    if entries.len() == 0 {
        None
    } else if entries.last().0@ == key {
        Some(entries.last().1@)
    } else {
        find_alias(entries.drop_last(), key)
    }
}

/// One configured team: its canonical name and the other names it goes by.
#[derive(Clone, Debug, PartialEq, Eq)]
pub struct TeamAliasEntry {
    pub canonical: String,
    pub aliases: Vec<String>,
}

/// The alias configuration.
#[derive(Clone, Debug, PartialEq, Eq)]
pub struct TeamAliases {
    pub teams: Vec<TeamAliasEntry>,
}

/// Maps team names of both feeds to one canonical form.
pub struct TeamResolver {
    /// (lowercased alias, lowercased canonical name); a later entry shadows
    /// an earlier one with the same alias.
    entries: Vec<(String, String)>,
}

/// A market resolved against a live match.
#[derive(Clone, Debug, PartialEq, Eq)]
pub struct MatchResult {
    pub market: PolymarketMarket,
    pub match_state: LiveMatchState,
    /// Whether the market's team A plays radiant.
    pub market_team_a_is_radiant: bool,
}

impl View for TeamResolver {
    type V = Map<Seq<char>, Seq<char>>;

    closed spec fn view(&self) -> Map<Seq<char>, Seq<char>> {
        Map::new(
            |k: Seq<char>| find_alias(self.entries@, k).is_some(),
            |k: Seq<char>| find_alias(self.entries@, k).unwrap(),
        )
    }
}

proof fn lemma_push_alias(entries: Seq<(String, String)>, e: (String, String))
    ensures
        Map::<Seq<char>, Seq<char>>::new(
            |k: Seq<char>| find_alias(entries.push(e), k).is_some(),
            |k: Seq<char>| find_alias(entries.push(e), k).unwrap(),
        ) == Map::<Seq<char>, Seq<char>>::new(
            |k: Seq<char>| find_alias(entries, k).is_some(),
            |k: Seq<char>| find_alias(entries, k).unwrap(),
        ).insert(e.0@, e.1@),
{
    assert(entries.push(e).drop_last() =~= entries);
    assert(entries.push(e).last() == e);
    let lhs = Map::<Seq<char>, Seq<char>>::new(
        |k: Seq<char>| find_alias(entries.push(e), k).is_some(),
        |k: Seq<char>| find_alias(entries.push(e), k).unwrap(),
    );
    let rhs = Map::<Seq<char>, Seq<char>>::new(
        |k: Seq<char>| find_alias(entries, k).is_some(),
        |k: Seq<char>| find_alias(entries, k).unwrap(),
    ).insert(e.0@, e.1@);
    assert(lhs =~= rhs);
}

/// `m` with each of `aliases`, lowercased, mapped to `canonical`, in order.
pub open spec fn with_aliases(
    m: Map<Seq<char>, Seq<char>>,
    aliases: Seq<String>,
    canonical: Seq<char>,
) -> Map<Seq<char>, Seq<char>>
    decreases aliases.len(),
{
    if aliases.len() == 0 {
        m
    } else {
        with_aliases(m, aliases.drop_last(), canonical).insert(lower_of(aliases.last()@), canonical)
    }
}

/// `m` with one configured team added: its lowercase canonical name maps to
/// itself, then each alias maps to it.
pub open spec fn with_entry(m: Map<Seq<char>, Seq<char>>, e: TeamAliasEntry) -> Map<
    Seq<char>,
    Seq<char>,
> {
    let c = lower_of(e.canonical@);
    with_aliases(m.insert(c, c), e.aliases@, c)
}

/// The alias table that a configuration describes, teams taken in order.
pub open spec fn alias_table(teams: Seq<TeamAliasEntry>) -> Map<Seq<char>, Seq<char>>
    decreases teams.len(),
{
    if teams.len() == 0 {
        Map::empty()
    } else {
        with_entry(alias_table(teams.drop_last()), teams.last())
    }
}

/// Whether the market's two teams and the live match's two sides have the
/// same canonical forms, in one orientation or the other.
pub open spec fn teams_pair_up(r: &TeamResolver, m: PolymarketMarket, l: LiveMatchState) -> bool {
    team_a_is_radiant(r, m, l) || team_a_is_dire(r, m, l)
}

pub open spec fn team_a_is_radiant(r: &TeamResolver, m: PolymarketMarket, l: LiveMatchState) -> bool {
    r.normal_form(m.team_a@) == r.normal_form(l.radiant.name@) && r.normal_form(m.team_b@)
        == r.normal_form(l.dire.name@)
}

pub open spec fn team_a_is_dire(r: &TeamResolver, m: PolymarketMarket, l: LiveMatchState) -> bool {
    r.normal_form(m.team_a@) == r.normal_form(l.dire.name@) && r.normal_form(m.team_b@)
        == r.normal_form(l.radiant.name@)
}

/// `i` is the first live match that the market pairs up with.
pub open spec fn first_pairing(
    r: &TeamResolver,
    m: PolymarketMarket,
    live: Seq<LiveMatchState>,
    i: int,
) -> bool {
    &&& 0 <= i < live.len()
    &&& teams_pair_up(r, m, live[i])
    &&& forall|j: int| 0 <= j < i ==> !teams_pair_up(r, m, #[trigger] live[j])
}

impl TeamResolver {
    /// The canonical form of a name: the alias table's entry for its key, or
    /// the key itself when the table has none.
    pub open spec fn normal_form(&self, name: Seq<char>) -> Seq<char> {
        let k = key_of(name);
        if self@.contains_key(k) {
            self@[k]
        } else {
            k
        }
    }

    /// A resolver with no aliases.
    pub fn new() -> (r: TeamResolver)
        ensures
            r@ == Map::<Seq<char>, Seq<char>>::empty(),
    {
        let r = TeamResolver { entries: Vec::new() };
        assert(r@ =~= Map::<Seq<char>, Seq<char>>::empty());
        r
    }

    /// Maps the lowercase form of `alias` to the lowercase form of `canonical`.
    pub fn add_alias(&mut self, alias: &str, canonical: &str)
        ensures
            final(self)@ == old(self)@.insert(lower_of(alias@), lower_of(canonical@)),
    {
        let key = lowercase(alias);
        let value = lowercase(canonical);
        proof {
            lemma_push_alias(self.entries@, (key, value));
        }
        self.entries.push((key, value));
    }

    fn push_entry(&mut self, key: String, value: String)
        ensures
            final(self)@ == old(self)@.insert(key@, value@),
    {
        proof {
            lemma_push_alias(self.entries@, (key, value));
        }
        self.entries.push((key, value));
    }

    /// The resolver for an alias configuration.
    pub fn from_aliases(config: &TeamAliases) -> (r: TeamResolver)
        ensures
            r@ == alias_table(config.teams@),
    {
        let mut r = TeamResolver::new();
        let mut i: usize = 0;
        while i < config.teams.len()
            invariant
                i <= config.teams@.len(),
                r@ == alias_table(config.teams@.take(i as int)),
            decreases config.teams@.len() - i,
        {
            let entry = &config.teams[i];
            let canonical = lowercase(entry.canonical.as_str());
            let ghost base = r@;
            r.push_entry(canonical.clone(), canonical.clone());
            let mut j: usize = 0;
            assert(entry.aliases@.take(0) =~= Seq::<String>::empty());
            while j < entry.aliases.len()
                invariant
                    j <= entry.aliases@.len(),
                    entry == config.teams@[i as int],
                    r@ == with_aliases(
                        base.insert(canonical@, canonical@),
                        entry.aliases@.take(j as int),
                        canonical@,
                    ),
                decreases entry.aliases@.len() - j,
            {
                let key = lowercase(entry.aliases[j].as_str());
                r.push_entry(key, canonical.clone());
                assert(entry.aliases@.take(j + 1).drop_last() =~= entry.aliases@.take(j as int));
                j = j + 1;
            }
            assert(entry.aliases@.take(j as int) =~= entry.aliases@);
            assert(config.teams@.take(i + 1).drop_last() =~= config.teams@.take(i as int));
            i = i + 1;
        }
        assert(config.teams@.take(i as int) =~= config.teams@);
        r
    }

    /// Looks a key up in the alias table.
    fn lookup(&self, key: &String) -> (r: Option<String>)
        ensures
            r matches Some(v) ==> self@.contains_key(key@) && v@ == self@[key@],
            r is None ==> !self@.contains_key(key@),
    {
        let mut i: usize = self.entries.len();
        assert(self.entries@.take(i as int) =~= self.entries@);
        while i > 0
            invariant
                i <= self.entries.len(),
                find_alias(self.entries@, key@) == find_alias(self.entries@.take(i as int), key@),
            decreases i,
        {
            let ghost prefix = self.entries@.take(i as int);
            assert(prefix.drop_last() =~= self.entries@.take(i - 1));
            if self.entries[i - 1].0 == *key {
                return Some(self.entries[i - 1].1.clone());
            }
            i = i - 1;
        }
        None
    }

    /// The canonical form of a team name.
    pub fn normalize(&self, name: &str) -> (r: String)
        ensures
            r@ == self.normal_form(name@),
    {
        let key = lowercase(trimmed(name));
        match self.lookup(&key) {
            Some(canonical) => canonical,
            None => key,
        }
    }

    /// Whether two names have the same canonical form.
    pub fn names_match(&self, name_a: &str, name_b: &str) -> (r: bool)
        ensures
            r == (self.normal_form(name_a@) == self.normal_form(name_b@)),
    {
        let a = self.normalize(name_a);
        let b = self.normalize(name_b);
        a == b
    }

    /// The first live match, in list order, whose two sides pair up with the
    /// market's two teams, with the orientation found.
    pub fn match_market_to_live(&self, market: &PolymarketMarket, live_matches: &[LiveMatchState]) -> (r:
        Option<MatchResult>)
        ensures
            r is None <==> forall|i: int|
                0 <= i < live_matches@.len() ==> !teams_pair_up(self, *market, #[trigger] live_matches@[i]),
            r matches Some(res) ==> exists|i: int|
                first_pairing(self, *market, live_matches@, i) && res.match_state == live_matches@[i]
                    && res.market == *market && res.market_team_a_is_radiant == team_a_is_radiant(
                    self,
                    *market,
                    live_matches@[i],
                ),
    {
        let team_a = self.normalize(market.team_a.as_str());
        let team_b = self.normalize(market.team_b.as_str());
        let mut i: usize = 0;
        while i < live_matches.len()
            invariant
                i <= live_matches@.len(),
                team_a@ == self.normal_form(market.team_a@),
                team_b@ == self.normal_form(market.team_b@),
                forall|j: int| 0 <= j < i ==> !teams_pair_up(self, *market, #[trigger] live_matches@[j]),
            decreases live_matches@.len() - i,
        {
            let live = &live_matches[i];
            let radiant = self.normalize(live.radiant.name.as_str());
            let dire = self.normalize(live.dire.name.as_str());
            let a_is_radiant = team_a == radiant && team_b == dire;
            let a_is_dire = team_a == dire && team_b == radiant;
            if a_is_radiant || a_is_dire {
                let res = MatchResult {
                    market: market.copied(),
                    match_state: live.copied(),
                    market_team_a_is_radiant: a_is_radiant,
                };
                assert(first_pairing(self, *market, live_matches@, i as int));
                return Some(res);
            }
            i = i + 1;
        }
        None
    }
}

impl Default for TeamResolver {
    fn default() -> (r: TeamResolver)
        ensures
            r@ == Map::<Seq<char>, Seq<char>>::empty(),
    {
        TeamResolver::new()
    }
}

/// Every canonical name of the table is in its own normal form: its key is
/// itself and the table maps it, if at all, to itself.
pub open spec fn canonical_names_settled(r: &TeamResolver) -> bool {
    forall|k: Seq<char>|
        #![trigger r@[k]]
        r@.contains_key(k) ==> key_of(r@[k]) == r@[k] && (r@.contains_key(r@[k]) ==> r@[r@[k]]
            == r@[k])
}

/// Normalization is idempotent: normalizing a normalized name changes
/// nothing, for a table whose canonical names are settled and a name whose
/// key is stable under lowercasing and trimming.
pub proof fn lemma_normalize_idempotent(r: &TeamResolver, s: Seq<char>)
    requires
        canonical_names_settled(r),
        key_of(key_of(s)) == key_of(s),
    ensures
        r.normal_form(r.normal_form(s)) == r.normal_form(s),
{
    let k = key_of(s);
    if r@.contains_key(k) {
        let v = r@[k];
        assert(key_of(v) == v);
    }
}

/// The market with its two teams swapped.
pub open spec fn swap_teams(m: PolymarketMarket) -> PolymarketMarket {
    PolymarketMarket { team_a: m.team_b, team_b: m.team_a, ..m }
}

/// Matching is symmetric: when the market pairs up first with live match `i`
/// with team A on radiant, the market with its teams swapped pairs up first
/// with the same match, with team A on dire. The two teams must have distinct
/// canonical forms (were they equal, team A would be on both sides).
pub proof fn lemma_matching_symmetric(r: &TeamResolver, m: PolymarketMarket, live: Seq<LiveMatchState>, i: int)
    requires
        first_pairing(r, m, live, i),
        team_a_is_radiant(r, m, live[i]),
        r.normal_form(m.team_a@) != r.normal_form(m.team_b@),
    ensures
        first_pairing(r, swap_teams(m), live, i),
        !team_a_is_radiant(r, swap_teams(m), live[i]),
{
    assert forall|j: int| 0 <= j < i implies !teams_pair_up(r, swap_teams(m), #[trigger] live[j]) by {
        assert(!teams_pair_up(r, m, live[j]));
    }
}

} // verus!
