//! The filter algebra and the query builder.
//!
//! A [`Filters`] value describes a predicate over a card; evaluating it is a
//! pure function of the filter and the card, stated by
//! [`filter_matches`] and decided by [`eval_filter`]. A [`QueryBuilder`]
//! accumulates filters and card sets and returns the cards on which every
//! accumulated filter holds.

use vstd::prelude::*;

use crate::cards::{Attack, Card, CardSet, CostExtra, Costs, Rarity, SpAtk, Temple, Traits};
use crate::text::{contains_lower, lower_of, lowercase, spec_contains};

verus! {

/// A five-way ordering descriptor for the numeric comparison filters.
#[derive(Clone, Debug, PartialEq, Eq, Structural)]
pub enum QueryOrder {
    /// Greater than another.
    Greater,
    /// Greater than or equal to another.
    GreaterEqual,
    /// Equal to another.
    Equal,
    /// Less than or equal to another.
    LessEqual,
    /// Less than another.
    Less,
}

/// Whether `a` stands to `b` as the ordering descriptor demands.
pub open spec fn spec_order(ord: QueryOrder, a: int, b: int) -> bool {
    match ord {
        QueryOrder::Greater => a > b,
        QueryOrder::GreaterEqual => a >= b,
        QueryOrder::Equal => a == b,
        QueryOrder::LessEqual => a <= b,
        QueryOrder::Less => a < b,
    }
}

/// Decide the comparison that [`spec_order`] describes.
pub fn match_order(ord: &QueryOrder, a: isize, b: isize) -> (r: bool)
    ensures
        r == spec_order(*ord, a as int, b as int),
{
    match ord {
        QueryOrder::Greater => a > b,
        QueryOrder::GreaterEqual => a >= b,
        QueryOrder::Equal => a == b,
        QueryOrder::LessEqual => a <= b,
        QueryOrder::Less => a < b,
    }
}

/// A type that can stand as a card predicate.
///
/// The closed set of built-in filters implements it, and a consumer can
/// implement it for a type of its own to inject custom predicates through
/// [`Filters::Extra`].
pub trait ToFilter<E, C>: Sized {
    /// What the predicate states, as a pure function of the value and the card.
    spec fn apply_spec(&self, c: &Card<E, C>) -> bool;

    /// Decide the predicate that [`ToFilter::apply_spec`] describes.
    fn apply(&self, c: &Card<E, C>) -> (r: bool)
        ensures
            r == self.apply_spec(c),
    ;
}

/// Filters to be applied when querying cards.
///
/// The `C` parameter is the cost extension payload of the cards searched; the
/// `F` parameter is an open extension point for custom predicates.
#[derive(Debug, PartialEq)]
pub enum Filters<C, F> {
    /// The card name includes the given text, case-insensitively.
    Name(String),
    /// The card description includes the given text, case-insensitively.
    Description(String),
    /// The card rarity equals the given rarity.
    Rarity(Rarity),
    /// The card temple flags equal the given flags exactly.
    Temple(Temple),
    /// The card tribe includes the given text, case-insensitively; no value
    /// means the card must be tribeless.
    Tribe(Option<String>),
    /// The card attack is numeric and stands in the given relation to the
    /// given value; special and text attacks never match.
    Attack(QueryOrder, isize),
    /// The card health stands in the given relation to the given value.
    Health(QueryOrder, isize),
    /// The given sigil name is on the card, compared case-insensitively.
    Sigil(String),
    /// The card attack is the given special attack; numeric and text attacks
    /// never match.
    SpAtk(SpAtk),
    /// The card attack is free text equal to the given text.
    StrAtk(String),
    /// The card cost equals the given cost structurally; no value means the
    /// card must be free.
    Costs(Option<Costs<C>>),
    /// The card traits equal the given traits structurally; no value means
    /// the card must be traitless.
    Traits(Option<Traits>),
    /// Logical disjunction of two filters.
    Or(Box<Filters<C, F>>, Box<Filters<C, F>>),
    /// Logical negation of a filter.
    Not(Box<Filters<C, F>>),
    /// A custom predicate supplied by the consumer.
    Extra(F),
}

/// Whether two optional costs are structurally equal.
pub open spec fn opt_costs_eq<C: CostExtra>(a: Option<Costs<C>>, b: Option<Costs<C>>) -> bool {
    match (a, b) {
        (Option::None, Option::None) => true,
        (Option::Some(x), Option::Some(y)) => x.eq_spec(&y),
        _ => false,
    }
}

/// Whether two optional trait values are structurally equal.
pub open spec fn opt_traits_eq(a: Option<Traits>, b: Option<Traits>) -> bool {
    match (a, b) {
        (Option::None, Option::None) => true,
        (Option::Some(x), Option::Some(y)) => x.eq_spec(&y),
        _ => false,
    }
}

/// What it means for a card to satisfy a filter.
///
/// This is the meaning of every filter variant, a pure function of the filter
/// and the card.
pub open spec fn filter_matches<E, C: CostExtra, F: ToFilter<E, C>>(
    f: Filters<C, F>,
    c: Card<E, C>,
) -> bool
    decreases f,
{
    match f {
        Filters::Name(n) => spec_contains(lower_of(c.name@), lower_of(n@)),
        Filters::Description(d) => spec_contains(lower_of(c.description@), lower_of(d@)),
        Filters::Rarity(r) => c.rarity == r,
        Filters::Temple(t) => c.temple == t,
        Filters::Tribe(t) => match (c.tribes, t) {
            (Option::Some(tr), Option::Some(tq)) => spec_contains(lower_of(tr@), lower_of(tq@)),
            (Option::None, Option::None) => true,
            _ => false,
        },
        Filters::Attack(ord, a) => c.attack matches Attack::Num(n) && spec_order(ord, n as int, a as int),
        Filters::Health(ord, h) => spec_order(ord, c.health as int, h as int),
        Filters::Sigil(s) => exists|i: int|
            0 <= i < c.sigils@.len() && #[trigger] lower_of(c.sigils@[i]@) == lower_of(s@),
        Filters::SpAtk(a) => c.attack matches Attack::SpAtk(x) && x == a,
        Filters::StrAtk(s) => c.attack matches Attack::Str(x) && x@ == s@,
        Filters::Costs(cost) => opt_costs_eq(c.costs, cost),
        Filters::Traits(t) => opt_traits_eq(c.traits, t),
        Filters::Or(a, b) => filter_matches(*a, c) || filter_matches(*b, c),
        Filters::Not(a) => !filter_matches(*a, c),
        Filters::Extra(x) => x.apply_spec(&c),
    }
}

/// Decide whether a card satisfies a filter.
///
/// The result is exactly [`filter_matches`]: the same filter and card always
/// give the same answer, and nothing is mutated.
pub fn eval_filter<E, C: CostExtra, F: ToFilter<E, C>>(f: &Filters<C, F>, c: &Card<E, C>) -> (r:
    bool)
    ensures
        r == filter_matches(*f, *c),
    decreases *f,
{
    match f {
        Filters::Name(n) => contains_lower(c.name.as_str(), n.as_str()),
        Filters::Description(d) => contains_lower(c.description.as_str(), d.as_str()),
        Filters::Rarity(r) => c.rarity == *r,
        Filters::Temple(t) => c.temple == *t,
        Filters::Tribe(t) => match (&c.tribes, t) {
            (Option::Some(tr), Option::Some(tq)) => contains_lower(tr.as_str(), tq.as_str()),
            (Option::None, Option::None) => true,
            _ => false,
        },
        Filters::Attack(ord, a) => match &c.attack {
            Attack::Num(n) => match_order(ord, *n, *a),
            _ => false,
        },
        Filters::Health(ord, h) => match_order(ord, c.health, *h),
        Filters::Sigil(s) => has_sigil(c, s),
        Filters::SpAtk(a) => match &c.attack {
            Attack::SpAtk(x) => *x == *a,
            _ => false,
        },
        Filters::StrAtk(s) => match &c.attack {
            Attack::Str(x) => x.eq(s),
            _ => false,
        },
        Filters::Costs(cost) => match (&c.costs, cost) {
            (Option::None, Option::None) => true,
            (Option::Some(x), Option::Some(y)) => x.eq_costs(y),
            _ => false,
        },
        Filters::Traits(t) => match (&c.traits, t) {
            (Option::None, Option::None) => true,
            (Option::Some(x), Option::Some(y)) => x.eq_traits(y),
            _ => false,
        },
        Filters::Or(a, b) => eval_filter(a, c) || eval_filter(b, c),
        Filters::Not(a) => !eval_filter(a, c),
        Filters::Extra(x) => x.apply(c),
    }
}

/// Decide whether the given sigil name is on the card, case-insensitively.
fn has_sigil<E, C>(c: &Card<E, C>, s: &String) -> (r: bool)
    ensures
        r == exists|i: int|
            0 <= i < c.sigils@.len() && #[trigger] lower_of(c.sigils@[i]@) == lower_of(s@),
{
    let target = lowercase(s.as_str());
    let n = c.sigils.len();
    let mut i: usize = 0;
    while i < n
        invariant
            n == c.sigils@.len(),
            i <= n,
            target@ == lower_of(s@),
            forall|j: int| 0 <= j < i ==> #[trigger] lower_of(c.sigils@[j]@) != lower_of(s@),
        decreases n - i,
    {
        let low = lowercase(c.sigils[i].as_str());
        if low == target {
            return true;
        }
        i = i + 1;
    }
    false
}

impl<E, C: CostExtra, F: ToFilter<E, C>> ToFilter<E, C> for Filters<C, F> {
    open spec fn apply_spec(&self, c: &Card<E, C>) -> bool {
        filter_matches(*self, *c)
    }

    fn apply(&self, c: &Card<E, C>) -> (r: bool) {
        eval_filter(self, c)
    }
}

/// Whether a card satisfies every filter of a sequence: the conjunction the
/// query builder evaluates.
pub open spec fn all_match<E, C: CostExtra, F: ToFilter<E, C>>(
    filters: Seq<Filters<C, F>>,
    c: Card<E, C>,
) -> bool {
    forall|i: int| 0 <= i < filters.len() ==> #[trigger] filter_matches(filters[i], c)
}

/// The subsequence of `cards` whose members satisfy every filter, in order.
pub open spec fn matching_cards<E, C: CostExtra, F: ToFilter<E, C>>(
    cards: Seq<Card<E, C>>,
    filters: Seq<Filters<C, F>>,
) -> Seq<Card<E, C>>
    decreases cards.len(),
{
    if cards.len() == 0 {
        Seq::empty()
    } else {
        let rest = matching_cards(cards.drop_last(), filters);
        if all_match(filters, cards.last()) {
            rest.push(cards.last())
        } else {
            rest
        }
    }
}

/// All cards of a sequence of sets, in set order then card order.
pub open spec fn all_cards<E, C>(sets: Seq<CardSet<E, C>>) -> Seq<Card<E, C>>
    decreases sets.len(),
{
    if sets.len() == 0 {
        Seq::empty()
    } else {
        all_cards(sets.drop_last()) + sets.last().cards@
    }
}

/// Decide whether a card satisfies every filter of a vector.
pub fn eval_all<E, C: CostExtra, F: ToFilter<E, C>>(
    filters: &Vec<Filters<C, F>>,
    c: &Card<E, C>,
) -> (r: bool)
    ensures
        r == all_match(filters@, *c),
{
    let n = filters.len();
    let mut i: usize = 0;
    while i < n
        invariant
            n == filters@.len(),
            i <= n,
            forall|j: int| 0 <= j < i ==> #[trigger] filter_matches(filters@[j], *c),
        decreases n - i,
    {
        if !eval_filter(&filters[i], c) {
            return false;
        }
        i = i + 1;
    }
    true
}

/// The result of a query: the matching cards, borrowed from the searched
/// sets, and the filters that produced them.
pub struct Query<'a, E, C, F> {
    /// The cards on which every filter held.
    pub cards: Vec<&'a Card<E, C>>,
    /// The filters that produced this query.
    pub filters: Vec<Filters<C, F>>,
}

/// The query builder: a collection of card sets to search and the filters to
/// apply, all of which must hold on a returned card.
pub struct QueryBuilder<'a, E, C, F> {
    /// All the sets searched by this query.
    pub sets: Vec<&'a CardSet<E, C>>,
    /// The filters accumulated so far.
    pub filters: Vec<Filters<C, F>>,
}

impl<'a, E, C: CostExtra, F: ToFilter<E, C>> QueryBuilder<'a, E, C, F> {
    /// Create a new empty [`QueryBuilder`] from a collection of sets, with no
    /// filter yet.
    pub fn new(sets: Vec<&'a CardSet<E, C>>) -> (r: Self)
        ensures
            r.sets == sets,
            r.filters@.len() == 0,
    {
        QueryBuilder { sets, filters: Vec::new() }
    }

    /// Create a new [`QueryBuilder`] from collections of sets and filters.
    pub fn with_filters(sets: Vec<&'a CardSet<E, C>>, filters: Vec<Filters<C, F>>) -> (r: Self)
        ensures
            r.sets == sets,
            r.filters == filters,
    {
        QueryBuilder { sets, filters }
    }

    /// Add a new filter to this query, in the builder style.
    pub fn add_filter(self, filter: Filters<C, F>) -> (r: Self)
        ensures
            r.sets == self.sets,
            r.filters@ == self.filters@.push(filter),
    {
        let mut s = self;
        s.filters.push(filter);
        s
    }

    /// Add a new filter in place.
    pub fn add_filter_mut(&mut self, filter: Filters<C, F>)
        ensures
            final(self).sets == old(self).sets,
            final(self).filters@ == old(self).filters@.push(filter),
    {
        self.filters.push(filter);
    }

    /// Evaluate the query: return, in set order then card order, exactly the
    /// cards of the searched sets on which every accumulated filter holds,
    /// together with the filters themselves.
    pub fn query(self) -> (r: Query<'a, E, C, F>)
        ensures
            r.filters == self.filters,
            r.cards@.map_values(|c: &Card<E, C>| *c) == matching_cards(
                all_cards(self.sets@.map_values(|s: &CardSet<E, C>| *s)),
                self.filters@,
            ),
    {
        let QueryBuilder { sets, filters } = self;
        let ghost sets_deref = sets@.map_values(|s: &CardSet<E, C>| *s);
        let mut out: Vec<&'a Card<E, C>> = Vec::new();
        let ns = sets.len();
        let mut si: usize = 0;
        while si < ns
            invariant
                ns == sets@.len(),
                si <= ns,
                sets_deref == sets@.map_values(|s: &CardSet<E, C>| *s),
                out@.map_values(|c: &Card<E, C>| *c) == matching_cards(
                    all_cards(sets_deref.take(si as int)),
                    filters@,
                ),
            decreases ns - si,
        {
            let set: &'a CardSet<E, C> = sets[si];
            let ghost prefix = all_cards(sets_deref.take(si as int));
            let nc = set.cards.len();
            let mut ci: usize = 0;
            while ci < nc
                invariant
                    nc == set.cards@.len(),
                    ci <= nc,
                    out@.map_values(|c: &Card<E, C>| *c) == matching_cards(
                        prefix + set.cards@.take(ci as int),
                        filters@,
                    ),
                decreases nc - ci,
            {
                let card: &'a Card<E, C> = &set.cards[ci];
                let ghost before = prefix + set.cards@.take(ci as int);
                proof {
                    assert(before.push(*card) =~= prefix + set.cards@.take(ci + 1));
                    lemma_matching_push(before, filters@, *card);
                }
                if eval_all(&filters, card) {
                    let ghost old_out = out@;
                    out.push(card);
                    proof {
                        assert(out@.map_values(|c: &Card<E, C>| *c) =~= old_out.map_values(
                            |c: &Card<E, C>| *c,
                        ).push(*card));
                    }
                }
                ci = ci + 1;
            }
            si = si + 1;
            proof {
                assert(sets_deref.take(si as int).drop_last() =~= sets_deref.take(si - 1));
                assert(sets_deref.take(si as int).last() == sets_deref[si - 1]);
                assert(all_cards(sets_deref.take(si as int)) =~= prefix + set.cards@);
                assert(set.cards@.take(nc as int) =~= set.cards@);
            }
        }
        proof {
            assert(sets_deref.take(ns as int) =~= sets_deref);
        }
        Query { cards: out, filters }
    }
}

/// Negation law: a card satisfies the negation of a filter exactly when it
/// does not satisfy the filter itself.
pub proof fn lemma_negation_law<E, C: CostExtra, F: ToFilter<E, C>>(
    f: Box<Filters<C, F>>,
    c: Card<E, C>,
)
    ensures
        filter_matches(Filters::Not(f), c) == !filter_matches(*f, c),
{
}

/// Disjunction law: a card satisfies the disjunction of two filters exactly
/// when it satisfies either one.
pub proof fn lemma_disjunction_law<E, C: CostExtra, F: ToFilter<E, C>>(
    f1: Box<Filters<C, F>>,
    f2: Box<Filters<C, F>>,
    c: Card<E, C>,
)
    ensures
        filter_matches(Filters::Or(f1, f2), c) == (filter_matches(*f1, c) || filter_matches(
            *f2,
            c,
        )),
{
}

/// A card stands among the matching cards exactly when it stands among the
/// searched cards and every filter holds on it.
pub proof fn lemma_matching_contains<E, C: CostExtra, F: ToFilter<E, C>>(
    cards: Seq<Card<E, C>>,
    filters: Seq<Filters<C, F>>,
    c: Card<E, C>,
)
    ensures
        matching_cards(cards, filters).contains(c) <==> (cards.contains(c) && all_match(
            filters,
            c,
        )),
    decreases cards.len(),
{
    if cards.len() == 0 {
    } else {
        let rest = cards.drop_last();
        lemma_matching_contains(rest, filters, c);
        if cards.contains(c) {
            let i = choose|i: int| 0 <= i < cards.len() && cards[i] == c;
            if i < cards.len() - 1 {
                assert(rest[i] == c);
                assert(rest.contains(c));
            }
        }
        if rest.contains(c) {
            let i = choose|i: int| 0 <= i < rest.len() && rest[i] == c;
            assert(cards[i] == c);
            assert(cards.contains(c));
        }
        let m = matching_cards(cards, filters);
        let mrest = matching_cards(rest, filters);
        if m.contains(c) {
            let i = choose|i: int| 0 <= i < m.len() && m[i] == c;
            if all_match(filters, cards.last()) {
                if i < m.len() - 1 {
                    assert(mrest[i] == c);
                    assert(mrest.contains(c));
                } else {
                    assert(c == cards.last());
                    assert(cards.contains(c));
                }
            } else {
                assert(mrest.contains(c));
            }
        }
        if cards.contains(c) && all_match(filters, c) {
            if rest.contains(c) {
                assert(mrest.contains(c));
                let i = choose|i: int| 0 <= i < mrest.len() && mrest[i] == c;
                assert(m[i] == c);
                assert(m.contains(c));
            } else {
                assert(c == cards.last());
                assert(m.last() == c);
                assert(m.contains(c));
            }
        }
    }
}

/// Conjunction law: the cards matching two filters together are exactly the
/// intersection of the cards matching each filter alone.
pub proof fn lemma_conjunction_law<E, C: CostExtra, F: ToFilter<E, C>>(
    cards: Seq<Card<E, C>>,
    f1: Filters<C, F>,
    f2: Filters<C, F>,
    c: Card<E, C>,
)
    ensures
        matching_cards(cards, seq![f1, f2]).contains(c) <==> (matching_cards(
            cards,
            seq![f1],
        ).contains(c) && matching_cards(cards, seq![f2]).contains(c)),
{
    let both = seq![f1, f2];
    let only1 = seq![f1];
    let only2 = seq![f2];
    lemma_matching_contains(cards, both, c);
    lemma_matching_contains(cards, only1, c);
    lemma_matching_contains(cards, only2, c);
    assert(both[0] == f1);
    assert(both[1] == f2);
    assert(only1[0] == f1);
    assert(only2[0] == f2);
    if all_match(both, c) {
        assert(filter_matches(both[0], c));
        assert(filter_matches(both[1], c));
    }
    if all_match(only1, c) && all_match(only2, c) {
        assert(filter_matches(only1[0], c));
        assert(filter_matches(only2[0], c));
        assert forall|i: int| 0 <= i < both.len() implies #[trigger] filter_matches(
            both[i],
            c,
        ) by {
            if i == 0 {
                assert(both[i] == f1);
            } else {
                assert(both[i] == f2);
            }
        }
    }
    if all_match(both, c) {
        assert forall|i: int| 0 <= i < only1.len() implies #[trigger] filter_matches(
            only1[i],
            c,
        ) by {
            assert(only1[i] == f1);
        }
        assert forall|i: int| 0 <= i < only2.len() implies #[trigger] filter_matches(
            only2[i],
            c,
        ) by {
            assert(only2[i] == f2);
        }
    }
}

/// Appending one card to the searched cards extends the matching cards by
/// that card exactly when every filter holds on it.
proof fn lemma_matching_push<E, C: CostExtra, F: ToFilter<E, C>>(
    cards: Seq<Card<E, C>>,
    filters: Seq<Filters<C, F>>,
    c: Card<E, C>,
)
    ensures
        matching_cards(cards.push(c), filters) == if all_match(filters, c) {
            matching_cards(cards, filters).push(c)
        } else {
            matching_cards(cards, filters)
        },
{
    assert(cards.push(c).drop_last() =~= cards);
    assert(cards.push(c).last() == c);
}

} // verus!
