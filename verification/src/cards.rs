//! The card data model: set codes, rarities, bit-flag attribute sets and the
//! card and set records themselves.

use vstd::prelude::*;
use vstd::string::StringSliceAdditionalSpecFns;

verus! {

/// Relies on std::str::from_utf8: a buffer of ASCII bytes is valid UTF-8 and
/// decodes to exactly those bytes read as characters.
#[verifier::external_body]
fn ascii_code_str(b: &[u8; 3]) -> (r: &str)
    requires
        forall|i: int| 0 <= i < b@.len() ==> b@[i] < 128,
    ensures
        r@ == b@.map_values(|x: u8| x as char),
{
    std::str::from_utf8(b).unwrap()
}

/// A 3 ASCII character set code identifying a card-game variant.
///
/// Internally exactly 3 bytes, each below 128.
#[derive(Clone, Copy, Debug, PartialEq, Eq)]
pub struct SetCode([u8; 3]);

impl SetCode {
    /// The raw bytes of the code.
    pub closed spec fn spec_bytes(self) -> Seq<u8> {
        self.0@
    }

    /// Every stored byte is ASCII.
    pub open spec fn wf(self) -> bool {
        forall|i: int| 0 <= i < 3 ==> self.spec_bytes()[i] < 128
    }

    /// Create a new [`SetCode`] from a string of exactly 3 ASCII characters.
    ///
    /// Returns no value when the input is shorter or longer than 3 bytes or
    /// holds any non-ASCII byte.
    pub fn new(code: &str) -> (r: Option<Self>)
        ensures
            r is Some <==> (code.spec_bytes().len() == 3
                && forall|i: int| 0 <= i < 3 ==> code.spec_bytes()[i] < 128),
            r matches Some(sc) ==> sc.spec_bytes() == code.spec_bytes() && sc.wf(),
    {
        let bytes = code.as_bytes();
        if bytes.len() == 3 && bytes[0] < 128 && bytes[1] < 128 && bytes[2] < 128 {
            let sc = SetCode([bytes[0], bytes[1], bytes[2]]);
            proof {
                assert(sc.spec_bytes() =~= code.spec_bytes());
            }
            Some(sc)
        } else {
            None
        }
    }

    /// Return the code as a string slice.
    pub fn code(&self) -> (r: &str)
        requires
            self.wf(),
        ensures
            r@ == self.spec_bytes().map_values(|x: u8| x as char),
    {
        ascii_code_str(&self.0)
    }

    /// Return the bytes of the set code.
    pub fn bytes(&self) -> (r: [u8; 3])
        ensures
            r@ == self.spec_bytes(),
    {
        self.0
    }
}

/// Temples, binders or archetypes a card belongs to.
///
/// A fixed-width bit-flag set backed by a `u16`, so new temples can be added
/// without changing the dispatch structure.
#[derive(Clone, Copy, Debug, PartialEq, Eq, Structural)]
pub struct Temple(pub u16);

/// The Beast Temple.
pub const TEMPLE_BEAST: u16 = 1;

/// The Undead Temple.
pub const TEMPLE_UNDEAD: u16 = 2;

/// The Tech Temple.
pub const TEMPLE_TECH: u16 = 4;

/// The Magick Temple.
pub const TEMPLE_MAGICK: u16 = 8;

/// The Fool Temple.
pub const TEMPLE_FOOL: u16 = 16;

/// The Artistry Temple.
pub const TEMPLE_ARTISTRY: u16 = 32;

impl Temple {
    /// The set with no flag raised.
    pub fn empty() -> (r: Temple)
        ensures
            r.0 == 0,
    {
        Temple(0)
    }

    /// The union of two flag sets.
    pub fn union(self, other: Temple) -> (r: Temple)
        ensures
            r.0 == (self.0 | other.0),
    {
        Temple(self.0 | other.0)
    }

    /// Whether every flag of `other` is raised in `self`.
    pub fn contains(self, other: Temple) -> (r: bool)
        ensures
            r == ((self.0 & other.0) == other.0),
    {
        (self.0 & other.0) == other.0
    }

    /// Set the flags of `what` to `value`: raise them when it holds, clear
    /// them when it does not.
    pub fn set_if(self, what: Temple, value: bool) -> (r: Temple)
        ensures
            value ==> r.0 == (self.0 | what.0),
            !value ==> r.0 == (self.0 & !what.0),
    {
        if value {
            Temple(self.0 | what.0)
        } else {
            Temple(self.0 & !what.0)
        }
    }

    /// Whether no flag is raised.
    pub fn is_empty(self) -> (r: bool)
        ensures
            r == (self.0 == 0),
    {
        self.0 == 0
    }
}

/// Orange or Ruby Mox.
pub const MOX_O: u16 = 1;

/// Green or Emerald Mox.
pub const MOX_G: u16 = 2;

/// Blue or Sapphire Mox.
pub const MOX_B: u16 = 4;

/// Gray or Prism Mox.
pub const MOX_Y: u16 = 8;

/// Red or Garnet Mox.
pub const MOX_R: u16 = 16;

/// Yellow or Topaz Mox.
pub const MOX_E: u16 = 32;

/// Purple or Amethyst Mox.
pub const MOX_P: u16 = 64;

/// Black or Onyx Mox.
pub const MOX_K: u16 = 128;

/// Plus-one cost indicator.
pub const MOX_P1: u16 = 256;

/// Bit flags for Mox colors.
///
/// A fixed-width bit-flag set backed by a `u16`.
#[derive(Clone, Copy, Debug, PartialEq, Eq, Structural)]
pub struct Mox(pub u16);

impl Mox {
    /// The set with no flag raised.
    pub fn empty() -> (r: Mox)
        ensures
            r.0 == 0,
    {
        Mox(0)
    }

    /// The union of two flag sets.
    pub fn union(self, other: Mox) -> (r: Mox)
        ensures
            r.0 == (self.0 | other.0),
    {
        Mox(self.0 | other.0)
    }

    /// Whether every flag of `other` is raised in `self`.
    pub fn contains(self, other: Mox) -> (r: bool)
        ensures
            r == ((self.0 & other.0) == other.0),
    {
        (self.0 & other.0) == other.0
    }

    /// Set the flags of `what` to `value`: raise them when it holds, clear
    /// them when it does not.
    pub fn set_if(self, what: Mox, value: bool) -> (r: Mox)
        ensures
            value ==> r.0 == (self.0 | what.0),
            !value ==> r.0 == (self.0 & !what.0),
    {
        if value {
            Mox(self.0 | what.0)
        } else {
            Mox(self.0 & !what.0)
        }
    }

    /// Whether no flag is raised.
    pub fn is_empty(self) -> (r: bool)
        ensures
            r == (self.0 == 0),
    {
        self.0 == 0
    }
}

/// A conductive card.
pub const TRAIT_CONDUCTIVE: u16 = 1;

/// A banned card.
pub const TRAIT_BAN: u16 = 2;

/// An unsaccable card or a terrain.
pub const TRAIT_TERRAIN: u16 = 4;

/// A hard or unhammerable card.
pub const TRAIT_HARD: u16 = 8;

/// Bit flags for the common card traits.
///
/// A fixed-width bit-flag set backed by a `u16`.
#[derive(Clone, Copy, Debug, PartialEq, Eq, Structural)]
pub struct TraitsFlag(pub u16);

impl TraitsFlag {
    /// The set with no flag raised.
    pub fn empty() -> (r: TraitsFlag)
        ensures
            r.0 == 0,
    {
        TraitsFlag(0)
    }

    /// The union of two flag sets.
    pub fn union(self, other: TraitsFlag) -> (r: TraitsFlag)
        ensures
            r.0 == (self.0 | other.0),
    {
        TraitsFlag(self.0 | other.0)
    }

    /// Whether every flag of `other` is raised in `self`.
    pub fn contains(self, other: TraitsFlag) -> (r: bool)
        ensures
            r == ((self.0 & other.0) == other.0),
    {
        (self.0 & other.0) == other.0
    }

    /// Set the flags of `what` to `value`: raise them when it holds, clear
    /// them when it does not.
    pub fn set_if(self, what: TraitsFlag, value: bool) -> (r: TraitsFlag)
        ensures
            value ==> r.0 == (self.0 | what.0),
            !value ==> r.0 == (self.0 & !what.0),
    {
        if value {
            TraitsFlag(self.0 | what.0)
        } else {
            TraitsFlag(self.0 & !what.0)
        }
    }

    /// Whether no flag is raised.
    pub fn is_empty(self) -> (r: bool)
        ensures
            r == (self.0 == 0),
    {
        self.0 == 0
    }
}

/// Rarities or tiers cards belong to.
#[derive(Clone, Debug, PartialEq, Eq, Structural)]
pub enum Rarity {
    /// Side-deck rarity: cards restricted to the side deck or unrestricted in count.
    SIDE,
    /// Common rarity: cards with the least amount of deck restriction.
    COMMON,
    /// Uncommon rarity: more restricted than common, still allowed in multiples.
    UNCOMMON,
    /// Rare rarity: one copy per deck.
    RARE,
    /// Unique rarity: one card of this rarity per deck.
    UNIQUE,
}

/// Special attacks for cards whose power is computed rather than printed.
#[derive(Clone, Debug, PartialEq, Eq, Structural)]
pub enum SpAtk {
    /// Power from Mox.
    MOX,
    /// Power from Green Mox.
    GREEN_MOX,
    /// Power of the opposing card.
    MIRROR,
    /// Power from the number of ant cards.
    ANT,
    /// Power from the bone tokens held.
    BONE,
    /// Power from the position relative to the bell.
    BELL,
    /// Power from the number of cards in hand.
    CARD,
}

/// The attack of a card: a printed number, a predefined special attack, or
/// free text.
#[derive(Clone, Debug, PartialEq, Eq)]
pub enum Attack {
    /// Numeric attack value.
    Num(isize),
    /// Common predefined special attack.
    SpAtk(SpAtk),
    /// Free-text special attack.
    Str(String),
}

/// Per-color Mox counts, for cards that cost more than one Mox of a color.
#[derive(Clone, Debug, PartialEq, Eq, Structural)]
pub struct MoxCount {
    /// The Orange component.
    pub o: usize,
    /// The Green component.
    pub g: usize,
    /// The Blue component.
    pub b: usize,
    /// The Gray component.
    pub y: usize,
    /// The Red component.
    pub r: usize,
    /// The Yellow component.
    pub e: usize,
    /// The Purple component.
    pub p: usize,
    /// The Black component.
    pub k: usize,
}

impl MoxCount {
    /// The count with every component zero.
    pub fn new() -> (r: MoxCount)
        ensures
            r == MoxCount::zero(),
    {
        MoxCount { o: 0, g: 0, b: 0, y: 0, r: 0, e: 0, p: 0, k: 0 }
    }

    /// The count with every component zero, as a specification value.
    pub open spec fn zero() -> MoxCount {
        MoxCount { o: 0, g: 0, b: 0, y: 0, r: 0, e: 0, p: 0, k: 0 }
    }
}

/// Extension payloads attached to [`Costs`].
///
/// Every payload must say how two of its values are compared, so the
/// exact-equality cost filter can include the payload in its test.
pub trait CostExtra: Sized {
    /// What equality of two payload values means, stated over their contents.
    spec fn eq_spec(&self, other: &Self) -> bool;

    /// Decide the equality that [`CostExtra::eq_spec`] describes.
    fn eq_extra(&self, other: &Self) -> (r: bool)
        ensures
            r == self.eq_spec(other),
    ;
}

impl CostExtra for () {
    open spec fn eq_spec(&self, other: &Self) -> bool {
        true
    }

    fn eq_extra(&self, other: &Self) -> (r: bool) {
        true
    }
}

/// All the cost information of a card.
///
/// The `E` parameter carries game-variant-specific cost components.
#[derive(Clone, Debug, PartialEq, Eq)]
pub struct Costs<E> {
    /// Blood cost of the card.
    pub blood: isize,
    /// Bone cost of the card.
    pub bone: isize,
    /// Energy cost of the card.
    pub energy: isize,
    /// Mox color flags of the card.
    pub mox: Mox,
    /// Per-color Mox counts, present only when some color costs more than one.
    pub mox_count: Option<MoxCount>,
    /// Extension payload for variant-specific cost components.
    pub extra: E,
}

impl<E: CostExtra> Costs<E> {
    /// What equality of two cost values means: every component equal, the
    /// payload compared as its own equality says.
    pub open spec fn eq_spec(&self, other: &Costs<E>) -> bool {
        &&& self.blood == other.blood
        &&& self.bone == other.bone
        &&& self.energy == other.energy
        &&& self.mox == other.mox
        &&& self.mox_count == other.mox_count
        &&& self.extra.eq_spec(&other.extra)
    }

    /// Decide the equality that [`Costs::eq_spec`] describes.
    pub fn eq_costs(&self, other: &Costs<E>) -> (r: bool)
        ensures
            r == self.eq_spec(other),
    {
        self.blood == other.blood && self.bone == other.bone && self.energy == other.energy
            && self.mox == other.mox && mox_count_eq(&self.mox_count, &other.mox_count)
            && self.extra.eq_extra(&other.extra)
    }
}

/// Decide equality of two optional per-color counts.
pub(crate) fn mox_count_eq(a: &Option<MoxCount>, b: &Option<MoxCount>) -> (r: bool)
    ensures
        r == (a == b),
{
    match (a, b) {
        (None, None) => true,
        (Some(x), Some(y)) => x == y,
        _ => false,
    }
}

/// Both flag-based and string-based traits of a card.
#[derive(Clone, Debug, PartialEq, Eq)]
pub struct Traits {
    /// Rare or unique traits, kept in free-text form.
    pub strings: Option<Vec<String>>,
    /// Common traits, kept as bit flags.
    pub flags: TraitsFlag,
}

impl Traits {
    /// What equality of two trait values means: the same flags and the same
    /// trait texts in the same order.
    pub open spec fn eq_spec(&self, other: &Traits) -> bool {
        self.flags == other.flags && self.strings.deep_view() == other.strings.deep_view()
    }

    /// Decide the equality that [`Traits::eq_spec`] describes.
    pub fn eq_traits(&self, other: &Traits) -> (r: bool)
        ensures
            r == self.eq_spec(other),
    {
        self.flags == other.flags && match (&self.strings, &other.strings) {
            (None, None) => true,
            (Some(a), Some(b)) => crate::text::string_vec_eq(a, b),
            _ => false,
        }
    }

    /// Create a new [`Traits`] with a flags component and no trait texts.
    pub fn with_flags(flags: TraitsFlag) -> (r: Traits)
        ensures
            r.strings is None,
            r.flags == flags,
    {
        Traits { strings: None, flags }
    }

    /// Create a new [`Traits`] with a string component and no flag raised.
    pub fn with_string(traits: Vec<String>) -> (r: Traits)
        ensures
            r.strings matches Some(s) && s@ == traits@,
            r.flags.0 == 0,
    {
        Traits { strings: Some(traits), flags: TraitsFlag::empty() }
    }
}

/// A card record with all the information the query engine reads.
///
/// The `E` parameter carries game-variant-specific card fields and `C` the
/// variant-specific cost components, so different game variants can extend
/// the record without duplicating its core shape.
#[derive(Clone, Debug)]
pub struct Card<E, C> {
    /// The set code of the owning set.
    pub set: SetCode,
    /// The card name.
    pub name: String,
    /// The card description, note or flavor text.
    pub description: String,
    /// A reference to the card portrait.
    pub portrait: String,
    /// The card rarity.
    pub rarity: Rarity,
    /// The temples or archetypes the card belongs to.
    pub temple: Temple,
    /// The card tribes, if any.
    pub tribes: Option<String>,
    /// The card attack or power.
    pub attack: Attack,
    /// The card health.
    pub health: isize,
    /// The sigils or abilities on the card, by name.
    ///
    /// Every name should exist as a key in the owning set's sigil table.
    pub sigils: Vec<String>,
    /// The card cost; a free card has no value here.
    pub costs: Option<Costs<C>>,
    /// The card traits; a traitless card has no value here.
    pub traits: Option<Traits>,
    /// Related cards or tokens, by name.
    pub related: Vec<String>,
    /// Extension payload for variant-specific card fields.
    pub extra: E,
}

/// A card set: a collection of cards with a sigil-description table.
#[derive(Clone, Debug)]
pub struct CardSet<E, C> {
    /// The set code of the set.
    pub code: SetCode,
    /// The display name of the set.
    pub name: String,
    /// The cards of the set.
    pub cards: Vec<Card<E, C>>,
    /// The sigil-description table: name and description pairs, looked up
    /// by the first entry carrying a name.
    ///
    /// The producing collaborator keeps every sigil name used by any card of
    /// the set present in this table.
    pub sigils_description: Vec<(String, String)>,
}

/// Conversion of a card to the same record shape with other extension
/// payloads.
pub trait UpgradeCard<E, C>: Sized {
    /// What the converted card must look like, relative to this card.
    spec fn upgraded(self, r: Card<E, C>) -> bool;

    /// Convert this card, exactly as [`UpgradeCard::upgraded`] describes.
    fn upgrade(self) -> (r: Card<E, C>)
        ensures
            self.upgraded(r),
    ;
}

impl<E, C> CardSet<E, C> {
    /// Upgrade every card of the set to another extension payload, keeping
    /// the code, name and sigil table as they are.
    pub fn upgrade<V, W>(self) -> (r: CardSet<V, W>) where Card<E, C>: UpgradeCard<V, W>
        ensures
            r.code == self.code,
            r.name == self.name,
            r.sigils_description == self.sigils_description,
            r.cards@.len() == self.cards@.len(),
            forall|i: int| 0 <= i < self.cards@.len() ==> #[trigger] self.cards@[i].upgraded(
                r.cards@[i],
            ),
    {
        let CardSet { code, name, cards, sigils_description } = self;
        let ghost orig = cards@;
        let mut upgraded: Vec<Card<V, W>> = Vec::new();
        let mut rest = cards;
        let mut i: usize = 0;
        let n = rest.len();
        proof {
            assert(rest@.skip(0) =~= orig);
        }
        while i < n
            invariant
                n == orig.len(),
                i <= n,
                rest@.len() == n - i,
                rest@ =~= orig.skip(i as int),
                upgraded@.len() == i,
                forall|j: int| 0 <= j < i ==> #[trigger] orig[j].upgraded(upgraded@[j]),
            decreases n - i,
        {
            let c = rest.remove(0);
            proof {
                assert(c == orig[i as int]);
                assert(rest@ =~= orig.skip(i + 1));
            }
            upgraded.push(c.upgrade());
            i = i + 1;
        }
        CardSet { code, name, cards: upgraded, sigils_description }
    }
}

} // verus!
