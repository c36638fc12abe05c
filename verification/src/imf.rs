//! Building a card set from plain IMF records.
//!
//! The records arrive as plain values (the collaborator that fetched and
//! deserialized them stays outside this crate); this module turns them into
//! the card model, normalizing every sigil name that the set's sigil table
//! does not define to the sentinel entry, so later lookups cannot fail.

use vstd::prelude::*;
use vstd::string::StrSliceExecFns;
use vstd::string::StringExecFns;

use crate::cards::{Attack, Card, CardSet, Costs, Mox, Rarity, SetCode, SpAtk, Temple, Traits,
    TraitsFlag, MOX_B, MOX_G, MOX_O, TEMPLE_BEAST, TEMPLE_MAGICK, TEMPLE_TECH, TEMPLE_UNDEAD,
    TRAIT_BAN, TRAIT_CONDUCTIVE, TRAIT_HARD, TRAIT_TERRAIN};
use crate::text::str_eq;

verus! {

/// A plain IMF card record, as the set source provides it.
#[derive(Clone, Debug)]
pub struct ImfCard {
    /// The card name.
    pub name: String,
    /// The card description; empty when the source gives none.
    pub description: String,
    /// The printed attack.
    pub attack: isize,
    /// The printed health.
    pub health: isize,
    /// The sigil names on the card.
    pub sigils: Vec<String>,
    /// The special attack name; empty for a plain numeric attack.
    pub atkspecial: String,
    /// The blood cost.
    pub blood_cost: isize,
    /// The bone cost.
    pub bone_cost: isize,
    /// The energy cost.
    pub energy_cost: isize,
    /// The Mox color names of the cost.
    pub mox_cost: Vec<String>,
    /// The portrait reference; empty when the source gives none.
    pub pixport_url: String,
    /// Whether the card is conductive.
    pub conduit: bool,
    /// Whether the card is banned.
    pub banned: bool,
    /// Whether the card is rare.
    pub rare: bool,
    /// Whether the card is unsaccable.
    pub nosac: bool,
    /// Whether the card is unhammerable.
    pub nohammer: bool,
    /// The name of the card this card evolves into, if any.
    pub evolution: String,
    /// The name of the left half, if any.
    pub left_half: String,
    /// The name of the right half, if any.
    pub right_half: String,
}

/// An error while building an IMF set.
#[derive(Debug)]
pub enum ImfError {
    /// An unknown special attack name; carries the offending text.
    InvalidSpAtk(String),
    /// An unknown Mox color name; carries the offending text.
    InvalidMox(String),
}

/// The special attack an IMF attack name stands for, if any.
pub open spec fn imf_spatk(s: Seq<char>) -> Option<SpAtk> {
    if s == "mox"@ {
        Option::Some(SpAtk::MOX)
    } else if s == "green_mox"@ {
        Option::Some(SpAtk::GREEN_MOX)
    } else if s == "mirror"@ {
        Option::Some(SpAtk::MIRROR)
    } else if s == "ant"@ {
        Option::Some(SpAtk::ANT)
    } else {
        Option::None
    }
}

/// The Mox flag an IMF color name stands for, if any.
pub open spec fn imf_mox_flag(s: Seq<char>) -> Option<u16> {
    if s == "Orange"@ {
        Option::Some(MOX_O)
    } else if s == "Green"@ {
        Option::Some(MOX_G)
    } else if s == "Blue"@ {
        Option::Some(MOX_B)
    } else {
        Option::None
    }
}

/// The Mox flags of a whole color list, if every name is known.
pub open spec fn mox_bits(ms: Seq<Seq<char>>) -> Option<u16>
    decreases ms.len(),
{
    if ms.len() == 0 {
        Option::Some(0)
    } else {
        match imf_mox_flag(ms[0]) {
            Option::None => Option::None,
            Option::Some(f) => match mox_bits(ms.skip(1)) {
                Option::None => Option::None,
                Option::Some(rest) => Option::Some(f | rest),
            },
        }
    }
}

/// The first unknown color name of a list.
pub open spec fn first_bad_mox(ms: Seq<Seq<char>>) -> Seq<char>
    decreases ms.len(),
{
    if ms.len() == 0 {
        Seq::empty()
    } else if imf_mox_flag(ms[0]) is None {
        ms[0]
    } else {
        first_bad_mox(ms.skip(1))
    }
}

/// Whether one IMF record converts: its special attack, when present, and
/// every Mox color name are known.
pub open spec fn imf_card_ok(c: ImfCard) -> bool {
    &&& (c.atkspecial@.len() == 0 || imf_spatk(c.atkspecial@) is Some)
    &&& mox_bits(c.mox_cost.deep_view()) is Some
}

/// A string with each space written as its URL escape.
pub open spec fn escape_spaces(s: Seq<char>) -> Seq<char>
    decreases s.len(),
{
    if s.len() == 0 {
        Seq::empty()
    } else {
        escape_spaces(s.drop_last()) + (if s.last() == ' ' {
            seq!['%', '2', '0']
        } else {
            seq![s.last()]
        })
    }
}

/// The portrait reference of a record: the given one, or the standard
/// location derived from the card name when none is given.
pub open spec fn portrait_of(c: ImfCard) -> Seq<char> {
    if c.pixport_url@.len() == 0 {
        "https://raw.githubusercontent.com/107zxz/inscr-onln/main/gfx/pixport/"@ + escape_spaces(
            c.name@,
        ) + ".png"@
    } else {
        c.pixport_url@
    }
}

/// The temple flags of a record: each temple raised by the cost component
/// that marks it.
pub open spec fn temple_bits(c: ImfCard) -> u16 {
    (if c.blood_cost != 0 {
        TEMPLE_BEAST
    } else {
        0
    }) | (if c.bone_cost != 0 {
        TEMPLE_UNDEAD
    } else {
        0
    }) | (if c.energy_cost != 0 {
        TEMPLE_TECH
    } else {
        0
    }) | (if c.mox_cost@.len() != 0 {
        TEMPLE_MAGICK
    } else {
        0
    })
}

/// The common-trait flags of a record.
pub open spec fn trait_bits(c: ImfCard) -> u16 {
    (if c.conduit {
        TRAIT_CONDUCTIVE
    } else {
        0
    }) | (if c.banned {
        TRAIT_BAN
    } else {
        0
    }) | (if c.nosac {
        TRAIT_TERRAIN
    } else {
        0
    }) | (if c.nohammer {
        TRAIT_HARD
    } else {
        0
    })
}

/// The related-card names of a record: its evolution and halves, the empty
/// ones left out.
pub open spec fn related_of(c: ImfCard) -> Seq<Seq<char>> {
    (if c.evolution@.len() > 0 {
        seq![c.evolution@]
    } else {
        Seq::empty()
    }) + (if c.left_half@.len() > 0 {
        seq![c.left_half@]
    } else {
        Seq::empty()
    }) + (if c.right_half@.len() > 0 {
        seq![c.right_half@]
    } else {
        Seq::empty()
    })
}

/// Whether a sigil table holds an entry under the given name.
pub open spec fn table_has(t: Seq<(String, String)>, name: Seq<char>) -> bool {
    exists|i: int| 0 <= i < t.len() && #[trigger] t[i].0@ == name
}

/// Whether one built card stands to its record as the conversion demands.
pub open spec fn imf_card_built(
    src: ImfCard,
    table: Seq<(String, String)>,
    code: SetCode,
    r: Card<(), ()>,
) -> bool {
    &&& r.set == code
    &&& r.name == src.name
    &&& r.description == src.description
    &&& r.portrait@ == portrait_of(src)
    &&& r.rarity == (if src.rare {
        Rarity::RARE
    } else {
        Rarity::COMMON
    })
    &&& r.temple == Temple(temple_bits(src))
    &&& r.tribes is None
    &&& (if src.atkspecial@.len() == 0 {
        r.attack == Attack::Num(src.attack)
    } else {
        r.attack matches Attack::SpAtk(x) && imf_spatk(src.atkspecial@) == Option::Some(x)
    })
    &&& r.health == src.health
    &&& r.sigils@.len() == src.sigils@.len()
    &&& forall|i: int| 0 <= i < src.sigils@.len() ==> (#[trigger] r.sigils@[i])@ == (if table_has(
        table,
        src.sigils@[i]@,
    ) {
        src.sigils@[i]@
    } else {
        "UNDEFINEDED SIGILS"@
    })
    &&& (if src.blood_cost > 0 || src.bone_cost > 0 || src.energy_cost > 0 || src.mox_cost@.len()
        > 0 {
        r.costs matches Option::Some(k) && k.blood == src.blood_cost && k.bone == src.bone_cost
            && k.energy == src.energy_cost && Option::Some(k.mox.0) == mox_bits(
            src.mox_cost.deep_view(),
        ) && k.mox_count is None && k.extra == ()
    } else {
        r.costs is None
    })
    &&& (if src.conduit || src.banned || src.nosac || src.nohammer {
        r.traits == Option::Some(Traits { strings: None, flags: TraitsFlag(trait_bits(src)) })
    } else {
        r.traits is None
    })
    &&& r.related.deep_view() == related_of(src)
}

/// Write a string with each space escaped, exactly as [`escape_spaces`]
/// states.
fn replace_spaces(s: &str) -> (r: String)
    ensures
        r@ == escape_spaces(s@),
{
    let n = s.unicode_len();
    let mut out = String::new();
    let mut i: usize = 0;
    while i < n
        invariant
            n == s@.len(),
            i <= n,
            out@ == escape_spaces(s@.take(i as int)),
        decreases n - i,
    {
        let c = s.get_char(i);
        if c == ' ' {
            out.append("%20");
            proof {
                reveal_strlit("%20");
                assert("%20"@ =~= seq!['%', '2', '0']);
            }
        } else {
            out.append(s.substring_char(i, i + 1));
            proof {
                assert(s@.subrange(i as int, i + 1) =~= seq![s@[i as int]]);
            }
        }
        i = i + 1;
        proof {
            assert(s@.take(i as int).drop_last() =~= s@.take(i - 1));
            assert(s@.take(i as int).last() == s@[i - 1]);
        }
    }
    proof {
        assert(s@.take(n as int) =~= s@);
    }
    out
}

/// Decide whether a sigil table holds an entry under the given name.
fn table_contains(table: &Vec<(String, String)>, name: &String) -> (r: bool)
    ensures
        r == table_has(table@, name@),
{
    let n = table.len();
    let mut i: usize = 0;
    while i < n
        invariant
            n == table@.len(),
            i <= n,
            forall|j: int| 0 <= j < i ==> (#[trigger] table@[j].0)@ != name@,
        decreases n - i,
    {
        if string_eq(&table[i].0, name) {
            return true;
        }
        i = i + 1;
    }
    false
}

/// Decide equality of two strings by their characters.
fn string_eq(a: &String, b: &String) -> (r: bool)
    ensures
        r == (a@ == b@),
{
    a.eq(b)
}

/// Gather the Mox flags of a color list, or the first unknown name, exactly
/// as [`mox_bits`] and [`first_bad_mox`] state.
fn mox_bits_exec(ms: &Vec<String>, i: usize) -> (r: Result<u16, String>)
    requires
        i <= ms@.len(),
    ensures
        match mox_bits(ms.deep_view().skip(i as int)) {
            Option::Some(bits) => r matches Ok(b) && b == bits,
            Option::None => r matches Err(s) && s@ == first_bad_mox(ms.deep_view().skip(i as int)),
        },
    decreases ms@.len() - i,
{
    let ghost tail = ms.deep_view().skip(i as int);
    if i >= ms.len() {
        proof {
            assert(ms.deep_view().len() == ms@.len());
        }
        return Ok(0);
    }
    proof {
        assert(ms.deep_view().len() == ms@.len());
        assert(tail[0] == ms.deep_view()[i as int]);
        assert(tail.skip(1) =~= ms.deep_view().skip(i + 1));
    }
    let m = &ms[i];
    let f: u16 = if str_eq(m, "Orange") {
        MOX_O
    } else if str_eq(m, "Green") {
        MOX_G
    } else if str_eq(m, "Blue") {
        MOX_B
    } else {
        return Err(m.clone());
    };
    match mox_bits_exec(ms, i + 1) {
        Err(s) => Err(s),
        Ok(rest) => Ok(f | rest),
    }
}

/// Build one card from its record, normalizing unknown sigil names to the
/// sentinel, exactly as [`imf_card_built`] states; an unknown special
/// attack or Mox color is reported with its offending text, the special
/// attack checked first.
#[verifier::loop_isolation(false)]
pub fn build_imf_card(src: ImfCard, table: &Vec<(String, String)>, code: SetCode) -> (r: Result<
    Card<(), ()>,
    ImfError,
>)
    ensures
        r is Ok <==> imf_card_ok(src),
        r matches Ok(card) ==> imf_card_built(src, table@, code, card),
        r matches Err(ImfError::InvalidSpAtk(s)) ==> s@ == src.atkspecial@ && src.atkspecial@.len()
            != 0 && imf_spatk(src.atkspecial@) is None,
        r matches Err(ImfError::InvalidMox(s)) ==> s@ == first_bad_mox(src.mox_cost.deep_view())
            && mox_bits(src.mox_cost.deep_view()) is None && (src.atkspecial@.len() == 0
            || imf_spatk(src.atkspecial@) is Some),
{
    let attack: Attack = if src.atkspecial.as_str().is_empty() {
        Attack::Num(src.attack)
    } else if str_eq(&src.atkspecial, "mox") {
        Attack::SpAtk(SpAtk::MOX)
    } else if str_eq(&src.atkspecial, "green_mox") {
        Attack::SpAtk(SpAtk::GREEN_MOX)
    } else if str_eq(&src.atkspecial, "mirror") {
        Attack::SpAtk(SpAtk::MIRROR)
    } else if str_eq(&src.atkspecial, "ant") {
        Attack::SpAtk(SpAtk::ANT)
    } else {
        return Err(ImfError::InvalidSpAtk(src.atkspecial));
    };
    let ghost moxes = src.mox_cost.deep_view();
    let mox: u16 = match mox_bits_exec(&src.mox_cost, 0) {
        Err(s) => {
            proof {
                assert(moxes.skip(0) =~= moxes);
            }
            return Err(ImfError::InvalidMox(s));
        },
        Ok(bits) => {
            proof {
                assert(moxes.skip(0) =~= moxes);
            }
            bits
        },
    };
    let portrait: String = if src.pixport_url.as_str().is_empty() {
        let mut p = String::from_str(
            "https://raw.githubusercontent.com/107zxz/inscr-onln/main/gfx/pixport/",
        );
        let esc = replace_spaces(src.name.as_str());
        p.append(esc.as_str());
        p.append(".png");
        p
    } else {
        src.pixport_url
    };
    let mut sigils: Vec<String> = Vec::new();
    let mut si: usize = 0;
    let ns = src.sigils.len();
    while si < ns
        invariant
            ns == src.sigils@.len(),
            si <= ns,
            sigils@.len() == si,
            forall|i: int| 0 <= i < si ==> (#[trigger] sigils@[i])@ == (if table_has(
                table@,
                src.sigils@[i]@,
            ) {
                src.sigils@[i]@
            } else {
                "UNDEFINEDED SIGILS"@
            }),
        decreases ns - si,
    {
        let name = &src.sigils[si];
        if table_contains(table, name) {
            sigils.push(name.clone());
        } else {
            sigils.push(String::from_str("UNDEFINEDED SIGILS"));
        }
        si = si + 1;
    }
    let costs: Option<Costs<()>> = if src.blood_cost > 0 || src.bone_cost > 0 || src.energy_cost
        > 0 || src.mox_cost.len() > 0 {
        Some(
            Costs {
                blood: src.blood_cost,
                bone: src.bone_cost,
                energy: src.energy_cost,
                mox: Mox(mox),
                mox_count: None,
                extra: (),
            },
        )
    } else {
        None
    };
    let fb: u16 = (if src.conduit {
        TRAIT_CONDUCTIVE
    } else {
        0
    }) | (if src.banned {
        TRAIT_BAN
    } else {
        0
    }) | (if src.nosac {
        TRAIT_TERRAIN
    } else {
        0
    }) | (if src.nohammer {
        TRAIT_HARD
    } else {
        0
    });
    let traits: Option<Traits> = if src.conduit || src.banned || src.nosac || src.nohammer {
        Some(Traits { strings: None, flags: TraitsFlag(fb) })
    } else {
        None
    };
    let mut related: Vec<String> = Vec::new();
    if !src.evolution.as_str().is_empty() {
        related.push(src.evolution);
    }
    if !src.left_half.as_str().is_empty() {
        related.push(src.left_half);
    }
    if !src.right_half.as_str().is_empty() {
        related.push(src.right_half);
    }
    proof {
        assert(related.deep_view() =~= related_of(src));
    }
    let tb: u16 = (if src.blood_cost != 0 {
        TEMPLE_BEAST
    } else {
        0
    }) | (if src.bone_cost != 0 {
        TEMPLE_UNDEAD
    } else {
        0
    }) | (if src.energy_cost != 0 {
        TEMPLE_TECH
    } else {
        0
    }) | (if src.mox_cost.len() != 0 {
        TEMPLE_MAGICK
    } else {
        0
    });
    let temple = Temple(tb);
    Ok(
        Card {
            set: code,
            name: src.name,
            description: src.description,
            portrait,
            rarity: if src.rare {
                Rarity::RARE
            } else {
                Rarity::COMMON
            },
            temple,
            tribes: None,
            attack,
            health: src.health,
            sigils,
            costs,
            traits,
            related,
            extra: (),
        },
    )
}

/// Build a whole set from plain records: the sigil table with the sentinel
/// entry appended, and every record converted against that table, exactly
/// as [`imf_card_built`] states per card. The first record that does not
/// convert decides the error.
#[verifier::loop_isolation(false)]
pub fn build_imf_set(
    code: SetCode,
    ruleset: String,
    raw: Vec<ImfCard>,
    sigils: Vec<(String, String)>,
) -> (r: Result<CardSet<(), ()>, ImfError>)
    ensures
        (r is Ok <==> forall|i: int| 0 <= i < raw@.len() ==> imf_card_ok(#[trigger] raw@[i])),
        r matches Ok(set) ==> {
            &&& set.code == code
            &&& set.name == ruleset
            &&& set.sigils_description@.len() == sigils@.len() + 1
            &&& forall|i: int| 0 <= i < sigils@.len() ==> set.sigils_description@[i] == #[trigger]
                sigils@[i]
            &&& set.sigils_description@[sigils@.len() as int].0@ == "UNDEFINEDED SIGILS"@
            &&& set.cards@.len() == raw@.len()
            &&& forall|i: int| 0 <= i < raw@.len() ==> imf_card_built(
                raw@[i],
                set.sigils_description@,
                code,
                #[trigger] set.cards@[i],
            )
        },
        r matches Err(e) ==> exists|i: int|
            0 <= i < raw@.len() && !imf_card_ok(#[trigger] raw@[i]) && (forall|j: int|
                0 <= j < i ==> imf_card_ok(#[trigger] raw@[j])),
{
    let mut table = sigils;
    let ghost given = table@;
    table.push(
        (
            String::from_str("UNDEFINEDED SIGILS"),
            String::from_str("THIS SIGIL IS NOT DEFINED BY THE SET"),
        ),
    );
    let mut cards: Vec<Card<(), ()>> = Vec::new();
    let mut rest = raw;
    let ghost orig = rest@;
    let mut i: usize = 0;
    let n = rest.len();
    proof {
        assert(rest@.skip(0) =~= orig);
    }
    while i < n
        invariant
            n == orig.len(),
            i <= n,
            rest@.len() == n - i,
            rest@ =~= orig.skip(i as int),
            cards@.len() == i,
            table@.len() == given.len() + 1,
            table@[given.len() as int].0@ == "UNDEFINEDED SIGILS"@,
            forall|j: int| 0 <= j < given.len() ==> table@[j] == #[trigger] given[j],
            forall|j: int| 0 <= j < i ==> imf_card_ok(#[trigger] orig[j]),
            forall|j: int| 0 <= j < i ==> imf_card_built(
                orig[j],
                table@,
                code,
                #[trigger] cards@[j],
            ),
        decreases n - i,
    {
        let c = rest.remove(0);
        proof {
            assert(c == orig[i as int]);
            assert(rest@ =~= orig.skip(i + 1));
        }
        match build_imf_card(c, &table, code) {
            Err(e) => {
                proof {
                    assert(!imf_card_ok(orig[i as int]));
                }
                return Err(e);
            },
            Ok(card) => {
                cards.push(card);
            },
        }
        i = i + 1;
    }
    Ok(CardSet { code, name: ruleset, cards, sigils_description: table })
}

} // verus!
