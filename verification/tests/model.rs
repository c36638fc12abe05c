use magpie::cards::{
    Attack, Card, CardSet, Costs, Mox, MoxCount, Rarity, SetCode, SpAtk, Temple, Traits,
    TraitsFlag, UpgradeCard, MOX_B, MOX_G, MOX_K, MOX_O, TEMPLE_BEAST, TEMPLE_MAGICK, TRAIT_BAN,
    TRAIT_CONDUCTIVE, TRAIT_HARD,
};
use magpie::engine::{AugCosts, AugExt, MagpieCosts, MagpieExt};
use magpie::imf::{build_imf_set, ImfCard, ImfError};

fn plain_card(name: &str) -> Card<(), ()> {
    Card {
        set: SetCode::new("std").unwrap(),
        name: name.to_string(),
        description: String::new(),
        portrait: String::new(),
        rarity: Rarity::COMMON,
        temple: Temple(TEMPLE_BEAST),
        tribes: None,
        attack: Attack::Num(1),
        health: 1,
        sigils: vec![],
        costs: None,
        traits: None,
        related: vec![],
        extra: (),
    }
}

fn imf_record(name: &str) -> ImfCard {
    ImfCard {
        name: name.to_string(),
        description: "a card".to_string(),
        attack: 2,
        health: 3,
        sigils: vec![],
        atkspecial: String::new(),
        blood_cost: 0,
        bone_cost: 0,
        energy_cost: 0,
        mox_cost: vec![],
        pixport_url: "img://x".to_string(),
        conduit: false,
        banned: false,
        rare: false,
        nosac: false,
        nohammer: false,
        evolution: String::new(),
        left_half: String::new(),
        right_half: String::new(),
    }
}

#[test]
fn set_code_accepts_exactly_three_ascii_bytes() {
    assert!(SetCode::new("ABC").is_some());
    assert!(SetCode::new("std").is_some());
    assert!(SetCode::new("$%>").is_some());
    assert!(SetCode::new("<=>").is_some());
    assert!(SetCode::new("<a>").is_some());
    assert!(SetCode::new("042").is_some());
}

#[test]
fn set_code_rejects_wrong_length_and_non_ascii() {
    assert!(SetCode::new("").is_none());
    assert!(SetCode::new("AB").is_none());
    assert!(SetCode::new("ABCD").is_none());
    assert!(SetCode::new("\u{1F913}\u{1F480}\u{1F9CF}").is_none());
    // Greek question marks: three characters, six bytes.
    assert!(SetCode::new("\u{37e}\u{37e}\u{37e}").is_none());
}

#[test]
fn set_code_round_trips() {
    let code = SetCode::new("std").unwrap();
    assert_eq!(code.code(), "std");
    let answer = SetCode::new("042").unwrap();
    assert_eq!(answer.bytes(), [48, 52, 50]);
}

#[test]
fn set_if_clears_flags_when_the_condition_fails() {
    // Setting a raised flag to false removes it; other flags stay.
    let t = Temple(TEMPLE_BEAST | TEMPLE_MAGICK).set_if(Temple(TEMPLE_BEAST), false);
    assert!(!t.contains(Temple(TEMPLE_BEAST)));
    assert!(t.contains(Temple(TEMPLE_MAGICK)));
    let m = Mox(MOX_O | MOX_G).set_if(Mox(MOX_G), false);
    assert_eq!(m.0, MOX_O);
    let f = TraitsFlag(TRAIT_BAN).set_if(TraitsFlag(TRAIT_BAN), false);
    assert!(f.is_empty());
}

#[test]
fn temple_flag_algebra() {
    let t = Temple::empty().set_if(Temple(TEMPLE_BEAST), true).set_if(Temple(TEMPLE_MAGICK), false);
    assert!(t.contains(Temple(TEMPLE_BEAST)));
    assert!(!t.contains(Temple(TEMPLE_MAGICK)));
    assert!(!t.is_empty());
    let u = t.union(Temple(TEMPLE_MAGICK));
    assert!(u.contains(Temple(TEMPLE_BEAST)) && u.contains(Temple(TEMPLE_MAGICK)));
    assert!(Temple::empty().is_empty());
}

#[test]
fn traits_constructors() {
    let flagged = Traits::with_flags(TraitsFlag(TRAIT_BAN | TRAIT_HARD));
    assert!(flagged.strings.is_none());
    assert!(flagged.flags.contains(TraitsFlag(TRAIT_BAN)));
    assert!(flagged.flags.contains(TraitsFlag(TRAIT_HARD)));

    let named = Traits::with_string(vec!["A Good Song Never Die".to_string()]);
    assert_eq!(named.strings, Some(vec!["A Good Song Never Die".to_string()]));
    assert!(named.flags.is_empty());
}

#[test]
fn costs_equality_is_structural() {
    let a: Costs<()> = Costs {
        blood: 1,
        bone: 0,
        energy: 2,
        mox: Mox(MOX_O),
        mox_count: None,
        extra: (),
    };
    let b = a.clone();
    assert!(a.eq_costs(&b));
    let c = Costs { blood: 2, ..a.clone() };
    assert!(!a.eq_costs(&c));
    let d = Costs { mox_count: Some(MoxCount::new()), ..a.clone() };
    assert!(!a.eq_costs(&d));
}

#[test]
fn upgrade_keeps_core_fields() {
    let mut card = plain_card("Stoat");
    card.costs = Some(Costs {
        blood: 1,
        bone: 0,
        energy: 0,
        mox: Mox(0),
        mox_count: None,
        extra: (),
    });
    let up: Card<MagpieExt, MagpieCosts> = card.upgrade();
    assert_eq!(up.name, "Stoat");
    assert_eq!(up.extra.artist, "");
    let costs = up.costs.unwrap();
    assert_eq!(costs.blood, 1);
    assert_eq!(costs.extra, MagpieCosts { shattered_count: None, max: 0, link: 0, gold: 0 });
}

#[test]
fn aug_upgrade_carries_extensions() {
    let mut card: Card<AugExt, AugCosts> = Card {
        set: SetCode::new("aug").unwrap(),
        name: "Clever Magpie".to_string(),
        description: String::new(),
        portrait: String::new(),
        rarity: Rarity::RARE,
        temple: Temple(TEMPLE_MAGICK),
        tribes: None,
        attack: Attack::Num(1),
        health: 2,
        sigils: vec![],
        costs: None,
        traits: None,
        related: vec![],
        extra: AugExt { artist: "someone".to_string() },
    };
    card.costs = Some(Costs {
        blood: 0,
        bone: 4,
        energy: 0,
        mox: Mox(0),
        mox_count: None,
        extra: AugCosts { shattered_count: None, max: 3 },
    });
    let up: Card<MagpieExt, MagpieCosts> = card.upgrade();
    assert_eq!(up.extra.artist, "someone");
    let costs = up.costs.unwrap();
    assert_eq!(costs.bone, 4);
    assert_eq!(costs.extra.max, 3);
    assert_eq!(costs.extra.link, 0);
}

#[test]
fn set_upgrade_maps_every_card() {
    let set: CardSet<(), ()> = CardSet {
        code: SetCode::new("std").unwrap(),
        name: "Standard".to_string(),
        cards: vec![plain_card("Stoat"), plain_card("Wolf")],
        sigils_description: vec![],
    };
    let up: CardSet<MagpieExt, MagpieCosts> = set.upgrade();
    assert_eq!(up.name, "Standard");
    assert_eq!(up.cards.len(), 2);
    assert_eq!(up.cards[0].name, "Stoat");
    assert_eq!(up.cards[1].name, "Wolf");
}

#[test]
fn imf_build_normalizes_unknown_sigils() {
    let mut rec = imf_record("Stoat");
    rec.sigils = vec!["Airborne".to_string(), "Mystery".to_string()];
    let set = build_imf_set(
        SetCode::new("std").unwrap(),
        "Standard".to_string(),
        vec![rec],
        vec![("Airborne".to_string(), "Flies over.".to_string())],
    )
    .unwrap();
    assert_eq!(set.cards[0].sigils[0], "Airborne");
    assert_eq!(set.cards[0].sigils[1], "UNDEFINEDED SIGILS");
    let last = set.sigils_description.last().unwrap();
    assert_eq!(last.0, "UNDEFINEDED SIGILS");
}

#[test]
fn imf_build_reads_costs_and_temples() {
    let mut rec = imf_record("Mage");
    rec.blood_cost = 0;
    rec.energy_cost = 2;
    rec.mox_cost = vec!["Orange".to_string(), "Blue".to_string()];
    let set = build_imf_set(
        SetCode::new("std").unwrap(),
        "Standard".to_string(),
        vec![rec],
        vec![],
    )
    .unwrap();
    let card = &set.cards[0];
    let costs = card.costs.as_ref().unwrap();
    assert_eq!(costs.energy, 2);
    assert_eq!(costs.mox.0, MOX_O | MOX_B);
    assert!(card.temple.contains(Temple(TEMPLE_MAGICK)));
    assert!(!card.temple.contains(Temple(TEMPLE_BEAST)));
}

#[test]
fn imf_build_rejects_unknown_special_attack() {
    let mut rec = imf_record("Oddity");
    rec.atkspecial = "bees".to_string();
    let err = build_imf_set(
        SetCode::new("std").unwrap(),
        "Standard".to_string(),
        vec![rec],
        vec![],
    )
    .unwrap_err();
    match err {
        ImfError::InvalidSpAtk(s) => assert_eq!(s, "bees"),
        other => panic!("unexpected error: {other:?}"),
    }
}

#[test]
fn imf_build_maps_special_attacks() {
    let mut rec = imf_record("Ant");
    rec.atkspecial = "ant".to_string();
    let set = build_imf_set(
        SetCode::new("std").unwrap(),
        "Standard".to_string(),
        vec![rec],
        vec![],
    )
    .unwrap();
    assert_eq!(set.cards[0].attack, Attack::SpAtk(SpAtk::ANT));
}

#[test]
fn imf_build_derives_portrait_when_missing() {
    let mut rec = imf_record("Mole Man");
    rec.pixport_url = String::new();
    let set = build_imf_set(
        SetCode::new("std").unwrap(),
        "Standard".to_string(),
        vec![rec],
        vec![],
    )
    .unwrap();
    assert_eq!(
        set.cards[0].portrait,
        "https://raw.githubusercontent.com/107zxz/inscr-onln/main/gfx/pixport/Mole%20Man.png"
    );
}

#[test]
fn mox_count_starts_at_zero() {
    let m = MoxCount::new();
    assert_eq!(m.o + m.g + m.b + m.y + m.r + m.e + m.p + m.k, 0);
}

#[test]
fn mox_flag_algebra() {
    let m = Mox::empty().set_if(Mox(MOX_O), true).set_if(Mox(MOX_K), false);
    assert!(m.contains(Mox(MOX_O)));
    assert!(!m.contains(Mox(MOX_K)));
    assert_eq!(m.union(Mox(MOX_K)).0, MOX_O | MOX_K);
}

#[test]
fn traits_flag_algebra() {
    let f = TraitsFlag::empty().set_if(TraitsFlag(TRAIT_CONDUCTIVE), true);
    assert!(f.contains(TraitsFlag(TRAIT_CONDUCTIVE)));
    assert!(!f.contains(TraitsFlag(TRAIT_BAN)));
    assert!(TraitsFlag::empty().is_empty());
}

#[test]
fn imf_build_rejects_unknown_mox_color() {
    let mut rec = imf_record("Gem");
    rec.mox_cost = vec!["Orange".to_string(), "Chartreuse".to_string()];
    let err = build_imf_set(
        SetCode::new("std").unwrap(),
        "Standard".to_string(),
        vec![rec],
        vec![],
    )
    .unwrap_err();
    match err {
        ImfError::InvalidMox(s) => assert_eq!(s, "Chartreuse"),
        other => panic!("unexpected error: {other:?}"),
    }
}

#[test]
fn imf_build_reads_traits_and_related() {
    let mut rec = imf_record("Pack");
    rec.conduit = true;
    rec.nohammer = true;
    rec.evolution = "Elder Pack".to_string();
    rec.right_half = "Half".to_string();
    let set = build_imf_set(
        SetCode::new("std").unwrap(),
        "Standard".to_string(),
        vec![rec],
        vec![],
    )
    .unwrap();
    let card = &set.cards[0];
    let traits = card.traits.as_ref().unwrap();
    assert!(traits.flags.contains(TraitsFlag(TRAIT_CONDUCTIVE)));
    assert!(traits.flags.contains(TraitsFlag(TRAIT_HARD)));
    assert!(!traits.flags.contains(TraitsFlag(TRAIT_BAN)));
    assert_eq!(card.related, vec!["Elder Pack".to_string(), "Half".to_string()]);
}
