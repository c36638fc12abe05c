//! Game-variant extensions: the unified card and cost payloads, the custom
//! filters, and the upgrade conversions between variants.

use vstd::prelude::*;

use crate::cards::{Card, CostExtra, Costs, Mox, MoxCount, Rarity, SpAtk, Temple, Traits,
    TraitsFlag, MOX_B, MOX_G, MOX_O, MOX_Y, TEMPLE_ARTISTRY, TEMPLE_BEAST, TEMPLE_FOOL,
    TEMPLE_MAGICK, TEMPLE_TECH, TEMPLE_UNDEAD, TRAIT_BAN, TRAIT_CONDUCTIVE, TRAIT_HARD,
    TRAIT_TERRAIN};
use crate::lexer::{check_digit, int_spec, is_digit, lex_from, parse_int, tokenize_query, LexTok,
    Token};
use crate::parser::{sp_program, ErrNode, KwNode, Keyword, ParseErr, QueryParser};
use crate::query::{Filters, ToFilter};
use crate::text::{chars_of, contains_sub, spec_contains, str_eq};
use crate::fuzzy::{lev, lev_sim};

verus! {

/// A blood cost component.
pub const COST_BLOOD: u8 = 1;

/// A bone cost component.
pub const COST_BONE: u8 = 2;

/// An energy cost component.
pub const COST_ENERGY: u8 = 4;

/// A Mox cost component.
pub const COST_MOX: u8 = 8;

/// Bit flags for the kinds of cost a card has.
///
/// A fixed-width bit-flag set backed by a `u8`.
#[derive(Clone, Copy, Debug, PartialEq, Eq, Structural)]
pub struct CostType(pub u8);

impl CostType {
    /// The set with no flag raised.
    pub fn empty() -> (r: CostType)
        ensures
            r.0 == 0,
    {
        CostType(0)
    }

    /// The union of two flag sets.
    pub fn union(self, other: CostType) -> (r: CostType)
        ensures
            r.0 == (self.0 | other.0),
    {
        CostType(self.0 | other.0)
    }

    /// Whether every flag of `other` is raised in `self`.
    pub fn contains(self, other: CostType) -> (r: bool)
        ensures
            r == ((self.0 & other.0) == other.0),
    {
        (self.0 & other.0) == other.0
    }

    /// Whether no flag is raised.
    pub fn is_empty(self) -> (r: bool)
        ensures
            r == (self.0 == 0),
    {
        self.0 == 0
    }
}

/// The unified card extension: every variant-specific card field in one
/// place.
#[derive(Clone, Debug)]
pub struct MagpieExt {
    /// Artist credit.
    pub artist: String,
}

/// The unified cost extension: every variant-specific cost component in one
/// place.
#[derive(Clone, Debug, PartialEq, Eq)]
pub struct MagpieCosts {
    /// Shattered Mox counts.
    pub shattered_count: Option<MoxCount>,
    /// Max energy cells.
    pub max: isize,
    /// Links.
    pub link: isize,
    /// Gold.
    pub gold: isize,
}

impl CostExtra for MagpieCosts {
    open spec fn eq_spec(&self, other: &Self) -> bool {
        *self == *other
    }

    fn eq_extra(&self, other: &Self) -> (r: bool) {
        crate::cards::mox_count_eq(&self.shattered_count, &other.shattered_count) && self.max
            == other.max && self.link == other.link && self.gold == other.gold
    }
}

impl Default for MagpieCosts {
    /// The extension with every component absent or zero.
    fn default() -> (r: Self)
        ensures
            r == (MagpieCosts { shattered_count: None, max: 0, link: 0, gold: 0 }),
    {
        MagpieCosts { shattered_count: None, max: 0, link: 0, gold: 0 }
    }
}

/// The card extension of the Augmented variant.
#[derive(Clone, Debug)]
pub struct AugExt {
    /// Artist credit.
    pub artist: String,
}

/// The cost extension of the Augmented variant.
#[derive(Clone, Debug, PartialEq, Eq)]
pub struct AugCosts {
    /// Shattered Mox counts.
    pub shattered_count: Option<MoxCount>,
    /// Max energy cells.
    pub max: isize,
}

impl CostExtra for AugCosts {
    open spec fn eq_spec(&self, other: &Self) -> bool {
        *self == *other
    }

    fn eq_extra(&self, other: &Self) -> (r: bool) {
        crate::cards::mox_count_eq(&self.shattered_count, &other.shattered_count) && self.max
            == other.max
    }
}

/// The cost extension of the Descryption variant.
#[derive(Clone, Debug, PartialEq, Eq)]
pub struct DescCosts {
    /// Links.
    pub link: isize,
    /// Gold.
    pub gold: isize,
}

impl CostExtra for DescCosts {
    open spec fn eq_spec(&self, other: &Self) -> bool {
        *self == *other
    }

    fn eq_extra(&self, other: &Self) -> (r: bool) {
        self.link == other.link && self.gold == other.gold
    }
}

/// Custom filters beyond the closed built-in set.
#[derive(Clone, Debug, PartialEq)]
pub enum FilterExt {
    /// Fuzzy match the card name, or plain substring match as a fallback.
    Fuzzy(String),
    /// Require at least one of the given cost kinds to be present.
    CostType(CostType),
}

impl ToFilter<MagpieExt, MagpieCosts> for FilterExt {
    open spec fn apply_spec(&self, c: &Card<MagpieExt, MagpieCosts>) -> bool {
        match self {
            FilterExt::Fuzzy(s) => lev_sim(c.name@, s@, 1, 2).num > 0 || spec_contains(
                c.name@,
                s@,
            ),
            FilterExt::CostType(t) => match c.costs {
                Option::Some(cost) => !((t.0 & COST_BLOOD == COST_BLOOD && cost.blood == 0) || (
                t.0 & COST_BONE == COST_BONE && cost.bone == 0) || (t.0 & COST_ENERGY
                    == COST_ENERGY && cost.energy == 0) || (t.0 & COST_MOX == COST_MOX
                    && cost.mox.0 == 0)),
                Option::None => false,
            },
        }
    }

    fn apply(&self, c: &Card<MagpieExt, MagpieCosts>) -> (r: bool) {
        match self {
            FilterExt::Fuzzy(s) => {
                let sc = lev(c.name.as_str(), s.as_str(), 1, 2);
                if sc.num > 0 {
                    true
                } else {
                    let hay = chars_of(c.name.as_str());
                    let needle = chars_of(s.as_str());
                    contains_sub(hay.as_slice(), needle.as_slice())
                }
            },
            FilterExt::CostType(t) => match &c.costs {
                Option::Some(cost) => !((t.contains(CostType(COST_BLOOD)) && cost.blood == 0) || (
                t.contains(CostType(COST_BONE)) && cost.bone == 0) || (t.contains(
                    CostType(COST_ENERGY),
                ) && cost.energy == 0) || (t.contains(CostType(COST_MOX)) && cost.mox.0 == 0)),
                Option::None => false,
            },
        }
    }
}

/// Conversion of a card of the plain variant to the unified one.
impl crate::cards::UpgradeCard<MagpieExt, MagpieCosts> for Card<(), ()> {
    open spec fn upgraded(self, r: Card<MagpieExt, MagpieCosts>) -> bool {
        &&& r.set == self.set
        &&& r.name == self.name
        &&& r.description == self.description
        &&& r.portrait == self.portrait
        &&& r.rarity == self.rarity
        &&& r.temple == self.temple
        &&& r.tribes == self.tribes
        &&& r.attack == self.attack
        &&& r.health == self.health
        &&& r.sigils == self.sigils
        &&& r.traits == self.traits
        &&& r.related == self.related
        &&& r.extra.artist@ == Seq::<char>::empty()
        &&& match (self.costs, r.costs) {
            (Option::None, Option::None) => true,
            (Option::Some(c), Option::Some(rc)) => rc.blood == c.blood && rc.bone == c.bone
                && rc.energy == c.energy && rc.mox == c.mox && rc.mox_count == c.mox_count
                && rc.extra == (MagpieCosts { shattered_count: None, max: 0, link: 0, gold: 0 }),
            _ => false,
        }
    }
    fn upgrade(self) -> (r: Card<MagpieExt, MagpieCosts>) {
        let Card { set, name, description, portrait, rarity, temple, tribes, attack, health, sigils, costs, traits, related, extra } =
            self;
        Card {
            set,
            name,
            description,
            portrait,
            rarity,
            temple,
            tribes,
            attack,
            health,
            sigils,
            costs: match costs {
                Option::None => None,
                Option::Some(c) => Some(
                    Costs {
                        blood: c.blood,
                        bone: c.bone,
                        energy: c.energy,
                        mox: c.mox,
                        mox_count: c.mox_count,
                        extra: MagpieCosts { shattered_count: None, max: 0, link: 0, gold: 0 },
                    },
                ),
            },
            traits,
            related,
            extra: MagpieExt { artist: String::new() },
        }
    }
}

/// Conversion of an Augmented card to the unified variant.
impl crate::cards::UpgradeCard<MagpieExt, MagpieCosts> for Card<AugExt, AugCosts> {
    open spec fn upgraded(self, r: Card<MagpieExt, MagpieCosts>) -> bool {
        &&& r.set == self.set
        &&& r.name == self.name
        &&& r.description == self.description
        &&& r.portrait == self.portrait
        &&& r.rarity == self.rarity
        &&& r.temple == self.temple
        &&& r.tribes == self.tribes
        &&& r.attack == self.attack
        &&& r.health == self.health
        &&& r.sigils == self.sigils
        &&& r.traits == self.traits
        &&& r.related == self.related
        &&& r.extra.artist == self.extra.artist
        &&& match (self.costs, r.costs) {
            (Option::None, Option::None) => true,
            (Option::Some(c), Option::Some(rc)) => rc.blood == c.blood && rc.bone == c.bone
                && rc.energy == c.energy && rc.mox == c.mox && rc.mox_count == c.mox_count
                && rc.extra == (MagpieCosts { shattered_count: c.extra.shattered_count, max: c.extra.max, link: 0, gold: 0 }),
            _ => false,
        }
    }
    fn upgrade(self) -> (r: Card<MagpieExt, MagpieCosts>) {
        let Card { set, name, description, portrait, rarity, temple, tribes, attack, health, sigils, costs, traits, related, extra } =
            self;
        Card {
            set,
            name,
            description,
            portrait,
            rarity,
            temple,
            tribes,
            attack,
            health,
            sigils,
            costs: match costs {
                Option::None => None,
                Option::Some(c) => Some(
                    Costs {
                        blood: c.blood,
                        bone: c.bone,
                        energy: c.energy,
                        mox: c.mox,
                        mox_count: c.mox_count,
                        extra: MagpieCosts {
                            shattered_count: c.extra.shattered_count,
                            max: c.extra.max,
                            link: 0,
                            gold: 0,
                        },
                    },
                ),
            },
            traits,
            related,
            extra: MagpieExt { artist: extra.artist },
        }
    }
}

/// Conversion of a Descryption card to the unified variant.
impl crate::cards::UpgradeCard<MagpieExt, MagpieCosts> for Card<(), DescCosts> {
    open spec fn upgraded(self, r: Card<MagpieExt, MagpieCosts>) -> bool {
        &&& r.set == self.set
        &&& r.name == self.name
        &&& r.description == self.description
        &&& r.portrait == self.portrait
        &&& r.rarity == self.rarity
        &&& r.temple == self.temple
        &&& r.tribes == self.tribes
        &&& r.attack == self.attack
        &&& r.health == self.health
        &&& r.sigils == self.sigils
        &&& r.traits == self.traits
        &&& r.related == self.related
        &&& r.extra.artist@ == Seq::<char>::empty()
        &&& match (self.costs, r.costs) {
            (Option::None, Option::None) => true,
            (Option::Some(c), Option::Some(rc)) => rc.blood == c.blood && rc.bone == c.bone
                && rc.energy == c.energy && rc.mox == c.mox && rc.mox_count == c.mox_count
                && rc.extra == (MagpieCosts { shattered_count: None, max: 0, link: c.extra.link, gold: c.extra.gold }),
            _ => false,
        }
    }
    fn upgrade(self) -> (r: Card<MagpieExt, MagpieCosts>) {
        let Card { set, name, description, portrait, rarity, temple, tribes, attack, health, sigils, costs, traits, related, extra } =
            self;
        Card {
            set,
            name,
            description,
            portrait,
            rarity,
            temple,
            tribes,
            attack,
            health,
            sigils,
            costs: match costs {
                Option::None => None,
                Option::Some(c) => Some(
                    Costs {
                        blood: c.blood,
                        bone: c.bone,
                        energy: c.energy,
                        mox: c.mox,
                        mox_count: c.mox_count,
                        extra: MagpieCosts {
                            shattered_count: None,
                            max: 0,
                            link: c.extra.link,
                            gold: c.extra.gold,
                        },
                    },
                ),
            },
            traits,
            related,
            extra: MagpieExt { artist: String::new() },
        }
    }
}


/// Whether a character is an ASCII letter.
pub open spec fn is_alpha(c: char) -> bool {
    (97 <= c as int && c as int <= 122) || (65 <= c as int && c as int <= 90)
}

/// Decide [`is_alpha`].
fn check_alpha(c: char) -> (r: bool)
    ensures
        r == is_alpha(c),
{
    let u = c as u32;
    (97 <= u && u <= 122) || (65 <= u && u <= 90)
}

/// The end of the digit run starting at `i`.
pub open spec fn digits_end(s: Seq<char>, i: int) -> int
    decreases s.len() - i,
{
    if i < 0 || i >= s.len() || !is_digit(s[i]) {
        i
    } else {
        digits_end(s, i + 1)
    }
}

/// The digit run never moves backward and stops at the input's end.
pub proof fn lemma_digits_end_bounds(s: Seq<char>, i: int)
    requires
        0 <= i <= s.len(),
    ensures
        i <= digits_end(s, i) <= s.len(),
    decreases s.len() - i,
{
    if i < s.len() && is_digit(s[i]) {
        lemma_digits_end_bounds(s, i + 1);
    }
}

/// Decide where the digit run starting at `i` ends.
fn digits_end_exec(cs: &Vec<char>, i: usize) -> (e: usize)
    requires
        i <= cs@.len(),
    ensures
        e as int == digits_end(cs@, i as int),
        i <= e <= cs@.len(),
    decreases cs@.len() - i,
{
    let mut j = i;
    let n = cs.len();
    while j < n && check_digit(cs[j])
        invariant
            i <= j <= n,
            n == cs@.len(),
            digits_end(cs@, i as int) == digits_end(cs@, j as int),
        decreases n - j,
    {
        proof {
            assert(digits_end(cs@, j as int) == digits_end(cs@, j + 1));
        }
        j = j + 1;
    }
    proof {
        assert(digits_end(cs@, j as int) == j);
    }
    j
}

/// The count a cost pair carries: the parsed signed integer, or one when
/// the digits fit no machine integer.
pub open spec fn pair_val(s: Seq<char>) -> int {
    match int_spec(s) {
        Option::Some(v) => v,
        Option::None => 1,
    }
}

/// A per-color count for a pair value: the value itself when it is a
/// meaningful count, zero otherwise.
pub open spec fn count_of(v: int) -> usize {
    if 0 <= v <= usize::MAX {
        v as usize
    } else {
        0
    }
}

/// One cost pair applied to a cost value: the letter selects blood, bone,
/// energy or a Mox color; a Mox letter raises the color's flag and, when a
/// per-color count is already present, stores the count there too. An
/// unknown letter is rejected.
pub open spec fn apply_pair(c: Costs<MagpieCosts>, v: int, letter: char) -> Option<
    Costs<MagpieCosts>,
> {
    if letter == 'b' {
        Option::Some(Costs { blood: v as isize, ..c })
    } else if letter == 'o' {
        Option::Some(Costs { bone: v as isize, ..c })
    } else if letter == 'e' {
        Option::Some(Costs { energy: v as isize, ..c })
    } else if letter == 'r' {
        Option::Some(
            Costs {
                mox: Mox(c.mox.0 | MOX_O),
                mox_count: match c.mox_count {
                    Option::None => None,
                    Option::Some(m) => Some(MoxCount { r: count_of(v), ..m }),
                },
                ..c
            },
        )
    } else if letter == 'g' {
        Option::Some(
            Costs {
                mox: Mox(c.mox.0 | MOX_G),
                mox_count: match c.mox_count {
                    Option::None => None,
                    Option::Some(m) => Some(MoxCount { g: count_of(v), ..m }),
                },
                ..c
            },
        )
    } else if letter == 'u' {
        Option::Some(
            Costs {
                mox: Mox(c.mox.0 | MOX_B),
                mox_count: match c.mox_count {
                    Option::None => None,
                    Option::Some(m) => Some(MoxCount { b: count_of(v), ..m }),
                },
                ..c
            },
        )
    } else if letter == 'y' {
        Option::Some(
            Costs {
                mox: Mox(c.mox.0 | MOX_Y),
                mox_count: match c.mox_count {
                    Option::None => None,
                    Option::Some(m) => Some(MoxCount { y: count_of(v), ..m }),
                },
                ..c
            },
        )
    } else {
        Option::None
    }
}

/// The cost shorthand applied from position `i` on: pairs of an optional
/// signed count and one letter, scanned left to right, text between pairs
/// passed over; a missing count stands for one.
pub open spec fn apply_from(c: Costs<MagpieCosts>, s: Seq<char>, i: int) -> Option<
    Costs<MagpieCosts>,
>
    decreases s.len() - i,
    via apply_from_decreases
{
    if i < 0 || i >= s.len() {
        Option::Some(c)
    } else {
        let nume = if s[i] == '-' && i + 1 < s.len() && is_digit(s[i + 1]) {
            digits_end(s, i + 1)
        } else if is_digit(s[i]) {
            digits_end(s, i)
        } else {
            i
        };
        if nume > i && nume < s.len() && is_alpha(s[nume]) {
            match apply_pair(c, pair_val(s.subrange(i, nume)), s[nume]) {
                Option::None => Option::None,
                Option::Some(c2) => apply_from(c2, s, nume + 1),
            }
        } else if nume == i && is_alpha(s[i]) {
            match apply_pair(c, 1, s[i]) {
                Option::None => Option::None,
                Option::Some(c2) => apply_from(c2, s, i + 1),
            }
        } else {
            apply_from(c, s, i + 1)
        }
    }
}

#[via_fn]
proof fn apply_from_decreases(c: Costs<MagpieCosts>, s: Seq<char>, i: int) {
    if 0 <= i < s.len() {
        lemma_digits_end_bounds(s, i);
        if i + 1 <= s.len() {
            lemma_digits_end_bounds(s, i + 1);
        }
    }
}

/// The cost value with every component absent or zero.
pub open spec fn spec_free_costs() -> Costs<MagpieCosts> {
    Costs {
        blood: 0,
        bone: 0,
        energy: 0,
        mox: Mox(0),
        mox_count: None,
        extra: MagpieCosts { shattered_count: None, max: 0, link: 0, gold: 0 },
    }
}

/// The cost value a whole shorthand text stands for, starting from the free
/// cost, if every letter is known.
pub open spec fn cost_of(s: Seq<char>) -> Option<Costs<MagpieCosts>> {
    apply_from(spec_free_costs(), s, 0)
}

/// The cost-kind flag one letter stands for, if any.
pub open spec fn ct_flag(c: char) -> Option<u8> {
    if c == 'b' {
        Option::Some(COST_BLOOD)
    } else if c == 'o' {
        Option::Some(COST_BONE)
    } else if c == 'e' {
        Option::Some(COST_ENERGY)
    } else if c == 'm' {
        Option::Some(COST_MOX)
    } else {
        Option::None
    }
}

/// The cost-kind flags of a letter run from position `i` on; an unknown
/// letter is rejected.
pub open spec fn cost_type_of(s: Seq<char>, i: int) -> Option<u8>
    decreases s.len() - i,
{
    if i < 0 || i >= s.len() {
        Option::Some(0)
    } else {
        match ct_flag(s[i]) {
            Option::None => Option::None,
            Option::Some(f) => match cost_type_of(s, i + 1) {
                Option::None => Option::None,
                Option::Some(rest) => Option::Some(f | rest),
            },
        }
    }
}

/// The position of the first comma at or after `i`, or the input's end.
pub open spec fn comma_end(s: Seq<char>, i: int) -> int
    decreases s.len() - i,
{
    if i < 0 || i >= s.len() || s[i] == ',' {
        i
    } else {
        comma_end(s, i + 1)
    }
}

/// The comma scan never moves backward and stops at the input's end.
pub proof fn lemma_comma_end_bounds(s: Seq<char>, i: int)
    requires
        0 <= i <= s.len(),
    ensures
        i <= comma_end(s, i) <= s.len(),
    decreases s.len() - i,
{
    if i < s.len() && s[i] != ',' {
        lemma_comma_end_bounds(s, i + 1);
    }
}

/// The comma-separated pieces of the input from position `i` on; empty
/// pieces are kept.
pub open spec fn split_commas(s: Seq<char>, i: int) -> Seq<Seq<char>>
    decreases s.len() - i + 1,
    via split_commas_decreases
{
    let e = comma_end(s, i);
    if 0 <= i <= s.len() && e < s.len() {
        seq![s.subrange(i, e)] + split_commas(s, e + 1)
    } else if 0 <= i <= s.len() {
        seq![s.subrange(i, s.len() as int)]
    } else {
        Seq::empty()
    }
}

#[via_fn]
proof fn split_commas_decreases(s: Seq<char>, i: int) {
    if 0 <= i <= s.len() {
        lemma_comma_end_bounds(s, i);
    }
}

/// The rarity a literal stands for, if any.
pub open spec fn rarity_of(s: Seq<char>) -> Option<Rarity> {
    if s == "side"@ || s == "s"@ {
        Option::Some(Rarity::SIDE)
    } else if s == "common"@ || s == "c"@ {
        Option::Some(Rarity::COMMON)
    } else if s == "uncommon"@ || s == "u"@ {
        Option::Some(Rarity::UNCOMMON)
    } else if s == "rare"@ || s == "r"@ {
        Option::Some(Rarity::RARE)
    } else if s == "unique"@ || s == "n"@ {
        Option::Some(Rarity::UNIQUE)
    } else {
        Option::None
    }
}

/// The temple flags a literal stands for, if any.
pub open spec fn temple_of(s: Seq<char>) -> Option<u16> {
    if s == "beast"@ || s == "b"@ {
        Option::Some(TEMPLE_BEAST)
    } else if s == "undead"@ || s == "u"@ {
        Option::Some(TEMPLE_UNDEAD)
    } else if s == "technology"@ || s == "tech"@ || s == "t"@ {
        Option::Some(TEMPLE_TECH)
    } else if s == "magick"@ || s == "m"@ {
        Option::Some(TEMPLE_MAGICK)
    } else if s == "fool"@ || s == "f"@ {
        Option::Some(TEMPLE_FOOL)
    } else if s == "artistry"@ || s == "a"@ {
        Option::Some(TEMPLE_ARTISTRY)
    } else {
        Option::None
    }
}

/// The special attack a literal stands for, if any.
pub open spec fn spatk_of(s: Seq<char>) -> Option<SpAtk> {
    if s == "mox"@ {
        Option::Some(SpAtk::MOX)
    } else if s == "green"@ {
        Option::Some(SpAtk::GREEN_MOX)
    } else if s == "mirror"@ {
        Option::Some(SpAtk::MIRROR)
    } else if s == "ant"@ {
        Option::Some(SpAtk::ANT)
    } else if s == "bone"@ {
        Option::Some(SpAtk::BONE)
    } else if s == "bell"@ {
        Option::Some(SpAtk::BELL)
    } else if s == "card"@ {
        Option::Some(SpAtk::CARD)
    } else {
        Option::None
    }
}

/// The trait filter for a common-trait flag.
pub open spec fn traits_filter(bits: u16) -> Filters<MagpieCosts, FilterExt> {
    Filters::Traits(Some(Traits { strings: None, flags: TraitsFlag(bits) }))
}

/// Whether a keyword node compiles: every enumerated literal, cost letter
/// and cost-kind letter is known.
pub open spec fn kw_valid(kw: KwNode) -> bool
    decreases kw,
{
    match kw {
        KwNode::Rarity(s) => rarity_of(s) is Some,
        KwNode::Temple(s) => temple_of(s) is Some,
        KwNode::SpAtk(s) => spatk_of(s) is Some,
        KwNode::Costs(s) => cost_of(s) is Some,
        KwNode::CostType(s) => cost_type_of(s, 0) is Some,
        KwNode::Or(a, b) => kw_valid(*a) && kw_valid(*b),
        KwNode::Not(a) => kw_valid(*a),
        _ => true,
    }
}

/// The error text of a keyword node that does not compile; the first error
/// wins in a disjunction.
pub open spec fn kw_err(kw: KwNode) -> Seq<char>
    decreases kw,
{
    match kw {
        KwNode::Rarity(_) => "InvalidRarity"@,
        KwNode::Temple(_) => "InvalidTemple"@,
        KwNode::SpAtk(_) => "InvalidSpAtk"@,
        KwNode::Costs(_) => "Invalid Cost"@,
        KwNode::CostType(_) => "Invalid Cost Type"@,
        KwNode::Or(a, b) => if !kw_valid(*a) {
            kw_err(*a)
        } else {
            kw_err(*b)
        },
        KwNode::Not(a) => kw_err(*a),
        _ => Seq::empty(),
    }
}

/// What the filter compiled from a keyword node must be.
pub open spec fn compiled(kw: KwNode, f: Filters<MagpieCosts, FilterExt>) -> bool
    decreases kw,
{
    match kw {
        KwNode::Name(s) => f matches Filters::Name(x) && x@ == s,
        KwNode::Desc(s) => f matches Filters::Description(x) && x@ == s,
        KwNode::Rarity(s) => rarity_of(s) matches Option::Some(x) && f
            == Filters::<MagpieCosts, FilterExt>::Rarity(x),
        KwNode::Temple(s) => temple_of(s) matches Option::Some(bits) && f
            == Filters::<MagpieCosts, FilterExt>::Temple(Temple(bits)),
        KwNode::Tribe(s) => f matches Filters::Tribe(t) && t matches Option::Some(x) && x@ == s,
        KwNode::Attack(o, n) => f matches Filters::Attack(o2, v) && o2 == o && v as int == n,
        KwNode::Health(o, n) => f matches Filters::Health(o2, v) && o2 == o && v as int == n,
        KwNode::Sigil(s) => f matches Filters::Sigil(x) && x@ == s,
        KwNode::SpAtk(s) => spatk_of(s) matches Option::Some(x) && f
            == Filters::<MagpieCosts, FilterExt>::SpAtk(x),
        KwNode::Costs(s) => cost_of(s) matches Option::Some(c) && f
            == Filters::<MagpieCosts, FilterExt>::Costs(Some(c)),
        KwNode::CostType(s) => cost_type_of(s, 0) matches Option::Some(bits) && f
            == Filters::<MagpieCosts, FilterExt>::Extra(FilterExt::CostType(CostType(bits))),
        KwNode::Trait(s) => {
            if s == "conductive"@ {
                f == traits_filter(TRAIT_CONDUCTIVE)
            } else if s == "ban"@ {
                f == traits_filter(TRAIT_BAN)
            } else if s == "terrain"@ {
                f == traits_filter(TRAIT_TERRAIN)
            } else if s == "hard"@ {
                f == traits_filter(TRAIT_HARD)
            } else {
                {
                    &&& f matches Filters::Traits(t)
                    &&& t matches Option::Some(tr)
                    &&& tr.flags.0 == 0
                    &&& tr.strings matches Option::Some(v)
                    &&& v.deep_view() == split_commas(s, 0)
                }
            }
        },
        KwNode::Or(a, b) => f matches Filters::Or(fa, fb) && compiled(*a, *fa) && compiled(
            *b,
            *fb,
        ),
        KwNode::Not(a) => f matches Filters::Not(fa) && compiled(*a, *fa),
    }
}

/// Decide [`apply_pair`] for one pair.
fn apply_pair_exec(c: Costs<MagpieCosts>, v: isize, letter: char) -> (r: Option<
    Costs<MagpieCosts>,
>)
    ensures
        r == apply_pair(c, v as int, letter),
{
    let Costs { blood, bone, energy, mox, mox_count, extra } = c;
    if letter == 'b' {
        Some(Costs { blood: v, bone, energy, mox, mox_count, extra })
    } else if letter == 'o' {
        Some(Costs { blood, bone: v, energy, mox, mox_count, extra })
    } else if letter == 'e' {
        Some(Costs { blood, bone, energy: v, mox, mox_count, extra })
    } else if letter == 'r' || letter == 'g' || letter == 'u' || letter == 'y' {
        let flag: u16 = if letter == 'r' {
            MOX_O
        } else if letter == 'g' {
            MOX_G
        } else if letter == 'u' {
            MOX_B
        } else {
            MOX_Y
        };
        let cnt: usize = if v >= 0 {
            v as usize
        } else {
            0
        };
        let new_count = match mox_count {
            Option::None => None,
            Option::Some(m) => {
                let MoxCount { o, g, b, y, r: rr, e, p, k } = m;
                if letter == 'r' {
                    Some(MoxCount { o, g, b, y, r: cnt, e, p, k })
                } else if letter == 'g' {
                    Some(MoxCount { o, g: cnt, b, y, r: rr, e, p, k })
                } else if letter == 'u' {
                    Some(MoxCount { o, g, b: cnt, y, r: rr, e, p, k })
                } else {
                    Some(MoxCount { o, g, b, y: cnt, r: rr, e, p, k })
                }
            },
        };
        Some(Costs { blood, bone, energy, mox: Mox(mox.0 | flag), mox_count: new_count, extra })
    } else {
        None
    }
}

/// Apply the cost shorthand from position `i` on to a starting cost value,
/// exactly as [`apply_from`] states; when the starting value carries a
/// per-color count, the scanned counts are stored there too.
pub fn apply_cost_from(c: Costs<MagpieCosts>, cs: &Vec<char>, i: usize) -> (r: Option<
    Costs<MagpieCosts>,
>)
    requires
        i <= cs@.len(),
    ensures
        r == apply_from(c, cs@, i as int),
    decreases cs@.len() - i,
{
    let n = cs.len();
    if i >= n {
        return Some(c);
    }
    let nume: usize = if cs[i] == '-' && i + 1 < n && check_digit(cs[i + 1]) {
        digits_end_exec(cs, i + 1)
    } else if check_digit(cs[i]) {
        digits_end_exec(cs, i)
    } else {
        i
    };
    if nume > i && nume < n && check_alpha(cs[nume]) {
        let mut digits: Vec<char> = Vec::new();
        let mut j = i;
        while j < nume
            invariant
                i <= j <= nume <= cs@.len(),
                digits@ == cs@.subrange(i as int, j as int),
            decreases nume - j,
        {
            digits.push(cs[j]);
            j = j + 1;
            proof {
                assert(digits@ =~= cs@.subrange(i as int, j as int));
            }
        }
        proof {
            assert(digits@ =~= cs@.subrange(i as int, nume as int));
        }
        let v: isize = match parse_int(&digits) {
            Some(v) => v,
            None => 1,
        };
        match apply_pair_exec(c, v, cs[nume]) {
            None => None,
            Some(c2) => apply_cost_from(c2, cs, nume + 1),
        }
    } else if nume == i && check_alpha(cs[i]) {
        match apply_pair_exec(c, 1, cs[i]) {
            None => None,
            Some(c2) => apply_cost_from(c2, cs, i + 1),
        }
    } else {
        apply_cost_from(c, cs, i + 1)
    }
}

/// Gather the cost-kind flags from position `i` on, exactly as
/// [`cost_type_of`] states.
fn cost_type_exec(cs: &Vec<char>, i: usize) -> (r: Option<u8>)
    requires
        i <= cs@.len(),
    ensures
        r == cost_type_of(cs@, i as int),
    decreases cs@.len() - i,
{
    let n = cs.len();
    if i >= n {
        return Some(0);
    }
    let c = cs[i];
    let f: u8 = if c == 'b' {
        COST_BLOOD
    } else if c == 'o' {
        COST_BONE
    } else if c == 'e' {
        COST_ENERGY
    } else if c == 'm' {
        COST_MOX
    } else {
        return None;
    };
    match cost_type_exec(cs, i + 1) {
        None => None,
        Some(rest) => Some(f | rest),
    }
}

/// Decide where the piece starting at `i` ends: at the first comma, or the
/// input's end.
fn comma_end_exec(cs: &Vec<char>, i: usize) -> (e: usize)
    requires
        i <= cs@.len(),
    ensures
        e as int == comma_end(cs@, i as int),
        i <= e <= cs@.len(),
    decreases cs@.len() - i,
{
    let mut j = i;
    let n = cs.len();
    while j < n && cs[j] != ','
        invariant
            i <= j <= n,
            n == cs@.len(),
            comma_end(cs@, i as int) == comma_end(cs@, j as int),
        decreases n - j,
    {
        proof {
            assert(comma_end(cs@, j as int) == comma_end(cs@, j + 1));
        }
        j = j + 1;
    }
    proof {
        assert(comma_end(cs@, j as int) == j);
    }
    j
}

/// Split the text at commas from position `i` on, appending the pieces,
/// exactly as [`split_commas`] states.
fn split_commas_exec(s: &str, cs: &Vec<char>, i: usize, out: &mut Vec<String>)
    requires
        cs@ == s@,
        i <= cs@.len(),
    ensures
        final(out).deep_view() == old(out).deep_view() + split_commas(cs@, i as int),
    decreases cs@.len() - i,
{
    let e = comma_end_exec(cs, i);
    let piece = s.substring_char(i, e).to_owned();
    let ghost before = out.deep_view();
    out.push(piece);
    proof {
        assert(out.deep_view() =~= before + seq![cs@.subrange(i as int, e as int)]);
    }
    if e < cs.len() {
        split_commas_exec(s, cs, e + 1, out);
        proof {
            assert(before + seq![cs@.subrange(i as int, e as int)] + split_commas(cs@, e + 1)
                =~= before + (seq![cs@.subrange(i as int, e as int)] + split_commas(cs@, e + 1)));
        }
    } else {
        proof {
            assert(cs@.subrange(i as int, e as int) =~= cs@.subrange(i as int, cs@.len() as int));
            assert(before + seq![cs@.subrange(i as int, cs@.len() as int)] =~= before
                + split_commas(cs@, i as int));
        }
    }
}

/// Decide [`rarity_of`] for a literal.
fn rarity_exec(s: &String) -> (r: Option<Rarity>)
    ensures
        r == rarity_of(s@),
{
    if str_eq(s, "side") || str_eq(s, "s") {
        Some(Rarity::SIDE)
    } else if str_eq(s, "common") || str_eq(s, "c") {
        Some(Rarity::COMMON)
    } else if str_eq(s, "uncommon") || str_eq(s, "u") {
        Some(Rarity::UNCOMMON)
    } else if str_eq(s, "rare") || str_eq(s, "r") {
        Some(Rarity::RARE)
    } else if str_eq(s, "unique") || str_eq(s, "n") {
        Some(Rarity::UNIQUE)
    } else {
        None
    }
}

/// Decide [`temple_of`] for a literal.
fn temple_exec(s: &String) -> (r: Option<u16>)
    ensures
        r == temple_of(s@),
{
    if str_eq(s, "beast") || str_eq(s, "b") {
        Some(TEMPLE_BEAST)
    } else if str_eq(s, "undead") || str_eq(s, "u") {
        Some(TEMPLE_UNDEAD)
    } else if str_eq(s, "technology") || str_eq(s, "tech") || str_eq(s, "t") {
        Some(TEMPLE_TECH)
    } else if str_eq(s, "magick") || str_eq(s, "m") {
        Some(TEMPLE_MAGICK)
    } else if str_eq(s, "fool") || str_eq(s, "f") {
        Some(TEMPLE_FOOL)
    } else if str_eq(s, "artistry") || str_eq(s, "a") {
        Some(TEMPLE_ARTISTRY)
    } else {
        None
    }
}

/// Decide [`spatk_of`] for a literal.
fn spatk_exec(s: &String) -> (r: Option<SpAtk>)
    ensures
        r == spatk_of(s@),
{
    if str_eq(s, "mox") {
        Some(SpAtk::MOX)
    } else if str_eq(s, "green") {
        Some(SpAtk::GREEN_MOX)
    } else if str_eq(s, "mirror") {
        Some(SpAtk::MIRROR)
    } else if str_eq(s, "ant") {
        Some(SpAtk::ANT)
    } else if str_eq(s, "bone") {
        Some(SpAtk::BONE)
    } else if str_eq(s, "bell") {
        Some(SpAtk::BELL)
    } else if str_eq(s, "card") {
        Some(SpAtk::CARD)
    } else {
        None
    }
}

/// Convert one parsed keyword node into a filter, exactly as [`compiled`]
/// states: enumerated fields map short codes to their variants, the cost
/// keyword reads its shorthand, the cost-kind keyword its letters, and the
/// trait keyword maps the four well-known trait words to flags and any
/// other text to a comma-split trait list; an unrecognized literal is the
/// error [`kw_err`] gives.
pub fn keyword_to_filter(value: Keyword) -> (r: Result<
    Filters<MagpieCosts, FilterExt>,
    &'static str,
>)
    ensures
        r is Ok <==> kw_valid(value@),
        r matches Ok(f) ==> compiled(value@, f),
        r matches Err(e) ==> e@ == kw_err(value@),
    decreases value,
{
    match value {
        Keyword::Name(s) => Ok(Filters::Name(s)),
        Keyword::Desc(s) => Ok(Filters::Description(s)),
        Keyword::Rarity(s) => match rarity_exec(&s) {
            Some(x) => Ok(Filters::Rarity(x)),
            None => Err("InvalidRarity"),
        },
        Keyword::Temple(s) => match temple_exec(&s) {
            Some(bits) => Ok(Filters::Temple(Temple(bits))),
            None => Err("InvalidTemple"),
        },
        Keyword::Tribe(s) => Ok(Filters::Tribe(Some(s))),
        Keyword::Attack(o, n) => Ok(Filters::Attack(o, n)),
        Keyword::Health(o, n) => Ok(Filters::Health(o, n)),
        Keyword::Sigil(s) => Ok(Filters::Sigil(s)),
        Keyword::SpAtk(s) => match spatk_exec(&s) {
            Some(x) => Ok(Filters::SpAtk(x)),
            None => Err("InvalidSpAtk"),
        },
        Keyword::Costs(s) => {
            let cs = chars_of(s.as_str());
            let start = Costs {
                blood: 0,
                bone: 0,
                energy: 0,
                mox: Mox(0),
                mox_count: None,
                extra: MagpieCosts { shattered_count: None, max: 0, link: 0, gold: 0 },
            };
            match apply_cost_from(start, &cs, 0) {
                Some(c) => Ok(Filters::Costs(Some(c))),
                None => Err("Invalid Cost"),
            }
        },
        Keyword::CostType(s) => {
            let cs = chars_of(s.as_str());
            match cost_type_exec(&cs, 0) {
                Some(bits) => Ok(Filters::Extra(FilterExt::CostType(CostType(bits)))),
                None => Err("Invalid Cost Type"),
            }
        },
        Keyword::Trait(s) => {
            if str_eq(&s, "conductive") {
                Ok(Filters::Traits(Some(Traits::with_flags(TraitsFlag(TRAIT_CONDUCTIVE)))))
            } else if str_eq(&s, "ban") {
                Ok(Filters::Traits(Some(Traits::with_flags(TraitsFlag(TRAIT_BAN)))))
            } else if str_eq(&s, "terrain") {
                Ok(Filters::Traits(Some(Traits::with_flags(TraitsFlag(TRAIT_TERRAIN)))))
            } else if str_eq(&s, "hard") {
                Ok(Filters::Traits(Some(Traits::with_flags(TraitsFlag(TRAIT_HARD)))))
            } else {
                let cs = chars_of(s.as_str());
                let mut parts: Vec<String> = Vec::new();
                proof {
                    assert(parts.deep_view() =~= Seq::<Seq<char>>::empty());
                }
                split_commas_exec(s.as_str(), &cs, 0, &mut parts);
                proof {
                    assert(Seq::<Seq<char>>::empty() + split_commas(cs@, 0) =~= split_commas(
                        cs@,
                        0,
                    ));
                }
                Ok(Filters::Traits(Some(Traits::with_string(parts))))
            }
        },
        Keyword::Or(a, b) => match keyword_to_filter(*a) {
            Err(e) => Err(e),
            Ok(fa) => match keyword_to_filter(*b) {
                Err(e) => Err(e),
                Ok(fb) => Ok(Filters::Or(Box::new(fa), Box::new(fb))),
            },
        },
        Keyword::Not(a) => match keyword_to_filter(*a) {
            Err(e) => Err(e),
            Ok(fa) => Ok(Filters::Not(Box::new(fa))),
        },
    }
}


/// A query compilation error: each stage's failure, carried as its
/// descriptive value.
#[derive(Debug)]
pub enum QueryError {
    /// An unrecognized symbol run or lone quote; carries the offending text.
    Lexical(String),
    /// A parse error; carries the expected and offending tokens.
    Syntactic(ParseErr),
    /// A recognized field with an unrecognized literal; carries the error
    /// text.
    Semantic(&'static str),
}

/// Compile a query text into the filters it stands for: lexing, parsing and
/// the semantic pass in turn, the first error of any stage reported as it
/// stands.
#[verifier::loop_isolation(false)]
pub fn compile_query(text: &str) -> (r: Result<Vec<Filters<MagpieCosts, FilterExt>>, QueryError>)
    ensures
        match lex_from(text@, 0) {
            Result::Err(w) => r matches Err(QueryError::Lexical(e)) && e@ == w,
            Result::Ok(ts) => match sp_program(ts.push(LexTok::Eof)) {
                Result::Err(pe) => r matches Err(QueryError::Syntactic(e)) && e@ == pe,
                Result::Ok(kws) => {
                    &&& (r is Ok <==> forall|i: int| 0 <= i < kws.len() ==> kw_valid(
                        #[trigger] kws[i],
                    ))
                    &&& (r matches Ok(fs) ==> fs@.len() == kws.len() && forall|i: int|
                        0 <= i < kws.len() ==> compiled(kws[i], #[trigger] fs@[i]))
                    &&& (r matches Err(QueryError::Semantic(e)) ==> exists|i: int|
                        0 <= i < kws.len() && !#[trigger] kw_valid(kws[i]) && (forall|j: int|
                            0 <= j < i ==> kw_valid(#[trigger] kws[j])) && e@ == kw_err(kws[i]))
                    &&& !(r matches Err(QueryError::Lexical(_)))
                    &&& !(r matches Err(QueryError::Syntactic(_)))
                },
            },
        },
{
    let tokens = match tokenize_query(text) {
        Err(e) => {
            return Err(QueryError::Lexical(e));
        },
        Ok(t) => t,
    };
    proof {
        let m = tokens@.map_values(|t: Token| t@);
        if lex_from(text@, 0) is Ok {
            let ts = lex_from(text@, 0)->Ok_0;
            assert(m == ts.push(LexTok::Eof));
            assert(m[m.len() - 1] == LexTok::Eof);
            assert(tokens@[tokens@.len() - 1]@ == m[m.len() - 1]);
        }
    }
    let keywords = match QueryParser::gen_ast_with(tokens) {
        Err(e) => {
            return Err(QueryError::Syntactic(e));
        },
        Ok(k) => k,
    };
    let ghost kws = keywords@.map_values(|k: Keyword| k@);
    let mut filters: Vec<Filters<MagpieCosts, FilterExt>> = Vec::new();
    let mut rest = keywords;
    let mut i: usize = 0;
    let n = rest.len();
    proof {
        assert(rest@.skip(0) =~= keywords@);
    }
    while i < n
        invariant
            n == kws.len(),
            i <= n,
            kws == keywords@.map_values(|k: Keyword| k@),
            rest@.len() == n - i,
            rest@ =~= keywords@.skip(i as int),
            filters@.len() == i,
            forall|j: int| 0 <= j < i ==> kw_valid(#[trigger] kws[j]),
            forall|j: int| 0 <= j < i ==> compiled(kws[j], #[trigger] filters@[j]),
        decreases n - i,
    {
        let kw = rest.remove(0);
        proof {
            assert(kw == keywords@[i as int]);
            assert(kw@ == kws[i as int]);
            assert(rest@ =~= keywords@.skip(i + 1));
        }
        match keyword_to_filter(kw) {
            Err(e) => {
                proof {
                    assert(!kw_valid(kws[i as int]));
                }
                return Err(QueryError::Semantic(e));
            },
            Ok(f) => {
                filters.push(f);
            },
        }
        i = i + 1;
    }
    proof {
        assert forall|j: int| 0 <= j < kws.len() implies kw_valid(#[trigger] kws[j]) by {
            assert(kw_valid(kws[j]));
        }
    }
    Ok(filters)
}

} // verus!
