use magpie::cards::{Attack, Card, CardSet, Costs, Mox, Rarity, SetCode, SpAtk, Temple, Traits,
    TraitsFlag, TRAIT_HARD};
use magpie::engine::{compile_query, FilterExt, MagpieCosts, MagpieExt};
use magpie::fuzzy::{fuzzy_best, lev};
use magpie::query::{eval_filter, Filters, Query, QueryBuilder, QueryOrder};

type F = Filters<MagpieCosts, FilterExt>;
type C = Card<MagpieExt, MagpieCosts>;
type S = CardSet<MagpieExt, MagpieCosts>;

fn card(name: &str, attack: Attack, health: isize) -> C {
    Card {
        set: SetCode::new("std").unwrap(),
        name: name.to_string(),
        description: format!("the {name}"),
        portrait: String::new(),
        rarity: Rarity::COMMON,
        temple: Temple(1),
        tribes: None,
        attack,
        health,
        sigils: vec![],
        costs: None,
        traits: None,
        related: vec![],
        extra: MagpieExt { artist: String::new() },
    }
}

fn set(cards: Vec<C>) -> S {
    CardSet {
        code: SetCode::new("std").unwrap(),
        name: "Standard".to_string(),
        cards,
        sigils_description: vec![],
    }
}

fn names(q: &Query<MagpieExt, MagpieCosts, FilterExt>) -> Vec<String> {
    q.cards.iter().map(|c| c.name.clone()).collect()
}

#[test]
fn attack_filter_matches_only_numeric_attacks() {
    let s = set(vec![
        card("weak", Attack::Num(2), 1),
        card("strong", Attack::Num(5), 1),
        card("odd", Attack::SpAtk(SpAtk::ANT), 1),
    ]);
    let filters = compile_query("attack>3").unwrap();
    let q = QueryBuilder::with_filters(vec![&s], filters).query();
    assert_eq!(names(&q), vec!["strong".to_string()]);
    assert_eq!(q.filters, vec![F::Attack(QueryOrder::Greater, 3)]);
}

#[test]
fn rarity_filter_excludes_other_rarities() {
    let mut a = card("common one", Attack::Num(1), 1);
    a.rarity = Rarity::COMMON;
    let mut b = card("rare one", Attack::Num(1), 1);
    b.rarity = Rarity::RARE;
    let mut c = card("unique one", Attack::Num(1), 1);
    c.rarity = Rarity::UNIQUE;
    let s = set(vec![a, b, c]);
    let filters = compile_query("rarity:rare").unwrap();
    let q = QueryBuilder::with_filters(vec![&s], filters).query();
    assert_eq!(names(&q), vec!["rare one".to_string()]);
}

#[test]
fn negated_trait_filter_includes_traitless_cards() {
    let mut hard = card("hard one", Attack::Num(1), 1);
    hard.traits = Some(Traits { strings: None, flags: TraitsFlag(TRAIT_HARD) });
    let traitless = card("soft one", Attack::Num(1), 1);
    let s = set(vec![hard, traitless]);
    let filters = compile_query("!trait:hard").unwrap();
    let q = QueryBuilder::with_filters(vec![&s], filters).query();
    // A card with no traits value at all is not equal to "has Hard", so the
    // negation includes it.
    assert_eq!(names(&q), vec!["soft one".to_string()]);
}

#[test]
fn conjunction_is_the_intersection_of_single_filter_queries() {
    let s = set(vec![
        card("ant", Attack::Num(4), 1),
        card("bear", Attack::Num(4), 9),
        card("crow", Attack::Num(1), 9),
    ]);
    let f1 = || compile_query("attack>2").unwrap();
    let f2 = || compile_query("health>2").unwrap();
    let both = compile_query("attack>2 health>2").unwrap();

    let only1 = names(&QueryBuilder::with_filters(vec![&s], f1()).query());
    let only2 = names(&QueryBuilder::with_filters(vec![&s], f2()).query());
    let joint = names(&QueryBuilder::with_filters(vec![&s], both).query());

    for c in &s.cards {
        let in_joint = joint.contains(&c.name);
        let in_both = only1.contains(&c.name) && only2.contains(&c.name);
        assert_eq!(in_joint, in_both);
    }
    assert_eq!(joint, vec!["bear".to_string()]);
}

#[test]
fn negation_flips_every_filter() {
    let c = card("stoat", Attack::Num(2), 3);
    let inner = F::Health(QueryOrder::Greater, 2);
    let negated = F::Not(Box::new(F::Health(QueryOrder::Greater, 2)));
    assert_eq!(eval_filter(&negated, &c), !eval_filter(&inner, &c));
}

#[test]
fn disjunction_matches_either_side() {
    let c = card("stoat", Attack::Num(2), 3);
    let left = F::Name("sto".to_string());
    let right = F::Health(QueryOrder::Less, 1);
    let or = F::Or(
        Box::new(F::Name("sto".to_string())),
        Box::new(F::Health(QueryOrder::Less, 1)),
    );
    assert_eq!(
        eval_filter(&or, &c),
        eval_filter(&left, &c) || eval_filter(&right, &c)
    );
    assert!(eval_filter(&or, &c));
}

#[test]
fn name_and_description_match_case_insensitively() {
    let c = card("Mole Man", Attack::Num(0), 6);
    assert!(eval_filter(&F::Name("mole".to_string()), &c));
    assert!(eval_filter(&F::Description("MOLE".to_string()), &c));
    assert!(!eval_filter(&F::Name("vole".to_string()), &c));
}

#[test]
fn sigil_filter_is_exact_but_case_insensitive() {
    let mut c = card("hawk", Attack::Num(1), 1);
    c.sigils = vec!["Airborne".to_string()];
    assert!(eval_filter(&F::Sigil("airborne".to_string()), &c));
    assert!(!eval_filter(&F::Sigil("airborn".to_string()), &c));
}

#[test]
fn cost_filter_compares_structurally() {
    let mut c = card("paid", Attack::Num(1), 1);
    c.costs = Some(Costs {
        blood: 1,
        bone: 0,
        energy: 0,
        mox: Mox(0),
        mox_count: None,
        extra: MagpieCosts { shattered_count: None, max: 0, link: 0, gold: 0 },
    });
    let same = F::Costs(c.costs.clone());
    assert!(eval_filter(&same, &c));
    let free = F::Costs(None);
    assert!(!eval_filter(&free, &c));
    let freebie = card("freebie", Attack::Num(1), 1);
    assert!(eval_filter(&free, &freebie));
}

#[test]
fn builder_accumulates_filters() {
    let s = set(vec![card("ant", Attack::Num(4), 1), card("bear", Attack::Num(4), 9)]);
    let mut b = QueryBuilder::new(vec![&s]);
    b.add_filter_mut(F::Attack(QueryOrder::GreaterEqual, 4));
    let b = b.add_filter(F::Health(QueryOrder::Greater, 2));
    let q = b.query();
    assert_eq!(names(&q), vec!["bear".to_string()]);
    assert_eq!(q.filters.len(), 2);
}

#[test]
fn query_scans_sets_in_order() {
    let s1 = set(vec![card("ant", Attack::Num(1), 1)]);
    let s2 = set(vec![card("bee", Attack::Num(1), 1)]);
    let q = QueryBuilder::with_filters(vec![&s1, &s2], vec![]).query();
    assert_eq!(names(&q), vec!["ant".to_string(), "bee".to_string()]);
}

#[test]
fn fuzzy_filter_accepts_similar_or_contained_names() {
    let c = card("Stoat", Attack::Num(1), 1);
    assert!(eval_filter(&F::Extra(FilterExt::Fuzzy("Stoot".to_string())), &c));
    assert!(eval_filter(&F::Extra(FilterExt::Fuzzy("toa".to_string())), &c));
    assert!(!eval_filter(&F::Extra(FilterExt::Fuzzy("warren".to_string())), &c));
}

#[test]
fn lev_scores_exactly() {
    // "kitten" vs "sitting": distance 3, longer length 7.
    let s = lev("kitten", "sitting", 0, 1);
    assert_eq!((s.num, s.den), (4, 7));
    // Below the threshold the score is zero.
    let s = lev("kitten", "sitting", 3, 4);
    assert_eq!(s.num, 0);
    // An empty first string never scores.
    let s = lev("", "abc", 0, 1);
    assert_eq!(s.num, 0);
}

#[test]
fn fuzzy_best_picks_the_exact_match() {
    let items = vec!["stoat".to_string(), "goat".to_string(), "warren".to_string()];
    let refs: Vec<&String> = items.iter().collect();
    let best = fuzzy_best("stoat", refs, 1, 2).unwrap();
    assert_eq!(best.data.as_str(), "stoat");
    assert_eq!(best.rank.num, best.rank.den);
}

#[test]
fn fuzzy_best_yields_nothing_below_threshold() {
    let items = vec!["stoat".to_string(), "goat".to_string(), "warren".to_string()];
    let refs: Vec<&String> = items.iter().collect();
    assert!(fuzzy_best("zzz", refs, 9, 10).is_none());
}

#[test]
fn fuzzy_best_keeps_the_last_of_equal_scores() {
    let items = vec!["goat".to_string(), "moat".to_string()];
    let refs: Vec<&String> = items.iter().collect();
    let best = fuzzy_best("coat", refs, 1, 2).unwrap();
    assert_eq!(best.data.as_str(), "moat");
}

#[test]
fn full_pipeline_from_text_to_cards() {
    let s = set(vec![
        card("Wolf Cub", Attack::Num(1), 1),
        card("Wolf", Attack::Num(3), 2),
        card("Urayuli", Attack::Num(7), 7),
    ]);
    let filters = compile_query("n:wolf a>=3 or a>5").unwrap();
    assert_eq!(filters.len(), 2);
    let q = QueryBuilder::with_filters(vec![&s], filters).query();
    assert_eq!(names(&q), vec!["Wolf".to_string()]);
}

#[test]
fn empty_query_string_finds_nothing() {
    let items = vec!["stoat".to_string()];
    let refs: Vec<&String> = items.iter().collect();
    assert!(fuzzy_best("", refs, 1, 2).is_none());
}

#[test]
fn temple_filter_wants_exact_flag_equality() {
    let mut c = card("dual", Attack::Num(1), 1);
    c.temple = Temple(magpie::cards::TEMPLE_BEAST | magpie::cards::TEMPLE_MAGICK);
    // Equality against a single temple fails even though the flag is raised.
    assert!(!eval_filter(&F::Temple(Temple(magpie::cards::TEMPLE_BEAST)), &c));
    assert!(eval_filter(
        &F::Temple(Temple(magpie::cards::TEMPLE_BEAST | magpie::cards::TEMPLE_MAGICK)),
        &c,
    ));
}

#[test]
fn tribe_filter_handles_tribeless_cards() {
    let mut squirrel = card("squirrel", Attack::Num(0), 1);
    squirrel.tribes = Some("Squirrel".to_string());
    let golem = card("golem", Attack::Num(0), 1);
    assert!(eval_filter(&F::Tribe(Some("squir".to_string())), &squirrel));
    assert!(!eval_filter(&F::Tribe(Some("squir".to_string())), &golem));
    assert!(eval_filter(&F::Tribe(None), &golem));
    assert!(!eval_filter(&F::Tribe(None), &squirrel));
}

#[test]
fn text_attack_filter_is_exact() {
    let mut c = card("odd", Attack::Str("X".to_string()), 1);
    assert!(eval_filter(&F::StrAtk("X".to_string()), &c));
    assert!(!eval_filter(&F::StrAtk("x".to_string()), &c));
    c.attack = Attack::Num(1);
    assert!(!eval_filter(&F::StrAtk("X".to_string()), &c));
}

#[test]
fn special_attack_filter_never_matches_numeric_attacks() {
    let numeric = card("plain", Attack::Num(3), 1);
    let special = card("anty", Attack::SpAtk(SpAtk::ANT), 1);
    assert!(!eval_filter(&F::SpAtk(SpAtk::ANT), &numeric));
    assert!(eval_filter(&F::SpAtk(SpAtk::ANT), &special));
}
