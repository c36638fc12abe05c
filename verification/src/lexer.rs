//! The query lexer.
//!
//! The input text is scanned left to right into a flat token stream,
//! terminated by an explicit end-of-input token:
//! - a double-quoted run becomes one string-literal token, quotes stripped;
//!   the content runs greedily to the last quote of the remaining input, and
//!   a quote without a closing partner or with nothing between the quotes is
//!   a lexical error;
//! - a run of word characters (ASCII letters, digits, `_`, `-`, and any
//!   character beyond ASCII) becomes a reserved keyword token, the literal
//!   `or`, a signed-integer token when the run parses as one, or otherwise a
//!   free-text string token;
//! - any other run of non-space characters is a symbol run: the two-character
//!   compounds `>=` and `<=` are recognized as whole runs, any other run is
//!   decomposed symbol by symbol, and an unrecognized symbol is a lexical
//!   error carrying the offending text.

use vstd::prelude::*;
use vstd::string::StrSliceExecFns;
use vstd::string::StringExecFns;

verus! {

/// A token of the query language.
#[derive(Debug)]
pub enum Token {
    /// End of the input.
    Eof,
    /// An opening parenthesis.
    OpenParen,
    /// A closing parenthesis.
    CloseParen,
    /// A string literal: a quoted run or a bare word.
    Str(String),
    /// A signed-integer literal.
    Num(isize),
    /// The card-name field keyword.
    Name,
    /// The description field keyword.
    Desc,
    /// The rarity field keyword.
    Rarity,
    /// The temple field keyword.
    Temple,
    /// The tribe field keyword.
    Tribe,
    /// The attack field keyword.
    Attack,
    /// The health field keyword.
    Health,
    /// The sigil field keyword.
    Sigil,
    /// The special-attack field keyword.
    SpAtk,
    /// The cost field keyword.
    Costs,
    /// The cost-kind field keyword.
    CostType,
    /// The trait field keyword.
    Trait,
    /// The logical-or keyword.
    Or,
    /// The negation symbol.
    Not,
    /// The field-selector symbol.
    Colon,
    /// The equality symbol.
    Equal,
    /// The strictly-greater symbol.
    Greater,
    /// The greater-or-equal symbol.
    GreaterEq,
    /// The strictly-less symbol.
    Less,
    /// The less-or-equal symbol.
    LessEq,
}

/// The mathematical model of a token: literal tokens carry their characters
/// or value directly.
pub enum LexTok {
    /// End of the input.
    Eof,
    /// An opening parenthesis.
    OpenParen,
    /// A closing parenthesis.
    CloseParen,
    /// A string literal.
    Str(Seq<char>),
    /// A signed-integer literal.
    Num(int),
    /// The card-name field keyword.
    Name,
    /// The description field keyword.
    Desc,
    /// The rarity field keyword.
    Rarity,
    /// The temple field keyword.
    Temple,
    /// The tribe field keyword.
    Tribe,
    /// The attack field keyword.
    Attack,
    /// The health field keyword.
    Health,
    /// The sigil field keyword.
    Sigil,
    /// The special-attack field keyword.
    SpAtk,
    /// The cost field keyword.
    Costs,
    /// The cost-kind field keyword.
    CostType,
    /// The trait field keyword.
    Trait,
    /// The logical-or keyword.
    Or,
    /// The negation symbol.
    Not,
    /// The field-selector symbol.
    Colon,
    /// The equality symbol.
    Equal,
    /// The strictly-greater symbol.
    Greater,
    /// The greater-or-equal symbol.
    GreaterEq,
    /// The strictly-less symbol.
    Less,
    /// The less-or-equal symbol.
    LessEq,
}

impl View for Token {
    type V = LexTok;

    open spec fn view(&self) -> LexTok {
        match self {
            Token::Eof => LexTok::Eof,
            Token::OpenParen => LexTok::OpenParen,
            Token::CloseParen => LexTok::CloseParen,
            Token::Str(s) => LexTok::Str(s@),
            Token::Num(n) => LexTok::Num(*n as int),
            Token::Name => LexTok::Name,
            Token::Desc => LexTok::Desc,
            Token::Rarity => LexTok::Rarity,
            Token::Temple => LexTok::Temple,
            Token::Tribe => LexTok::Tribe,
            Token::Attack => LexTok::Attack,
            Token::Health => LexTok::Health,
            Token::Sigil => LexTok::Sigil,
            Token::SpAtk => LexTok::SpAtk,
            Token::Costs => LexTok::Costs,
            Token::CostType => LexTok::CostType,
            Token::Trait => LexTok::Trait,
            Token::Or => LexTok::Or,
            Token::Not => LexTok::Not,
            Token::Colon => LexTok::Colon,
            Token::Equal => LexTok::Equal,
            Token::Greater => LexTok::Greater,
            Token::GreaterEq => LexTok::GreaterEq,
            Token::Less => LexTok::Less,
            Token::LessEq => LexTok::LessEq,
        }
    }
}

/// Structural equality of two tokens; literal tokens are compared by their
/// characters and values.
pub open spec fn token_eq(a: Token, b: Token) -> bool {
    a@ == b@
}

impl PartialEq for Token {
    fn eq(&self, other: &Token) -> (r: bool) {
        match (self, other) {
            (Token::Str(x), Token::Str(y)) => x.eq(y),
            (Token::Num(x), Token::Num(y)) => x == y,
            (Token::Eof, Token::Eof) => true,
            (Token::OpenParen, Token::OpenParen) => true,
            (Token::CloseParen, Token::CloseParen) => true,
            (Token::Name, Token::Name) => true,
            (Token::Desc, Token::Desc) => true,
            (Token::Rarity, Token::Rarity) => true,
            (Token::Temple, Token::Temple) => true,
            (Token::Tribe, Token::Tribe) => true,
            (Token::Attack, Token::Attack) => true,
            (Token::Health, Token::Health) => true,
            (Token::Sigil, Token::Sigil) => true,
            (Token::SpAtk, Token::SpAtk) => true,
            (Token::Costs, Token::Costs) => true,
            (Token::CostType, Token::CostType) => true,
            (Token::Trait, Token::Trait) => true,
            (Token::Or, Token::Or) => true,
            (Token::Not, Token::Not) => true,
            (Token::Colon, Token::Colon) => true,
            (Token::Equal, Token::Equal) => true,
            (Token::Greater, Token::Greater) => true,
            (Token::GreaterEq, Token::GreaterEq) => true,
            (Token::Less, Token::Less) => true,
            (Token::LessEq, Token::LessEq) => true,
            _ => false,
        }
    }
}

impl vstd::std_specs::cmp::PartialEqSpecImpl for Token {
    open spec fn obeys_eq_spec() -> bool {
        true
    }

    open spec fn eq_spec(&self, other: &Token) -> bool {
        token_eq(*self, *other)
    }
}

/// Whether a character separates tokens: the ASCII whitespace characters.
pub open spec fn is_ws(c: char) -> bool {
    c == ' ' || c == '\t' || c == '\n' || c == '\r'
}

/// Whether a character belongs to a word run: ASCII letters and digits,
/// underscore, hyphen, and every character beyond ASCII, so that accented
/// names typed bare become text literals.
pub open spec fn is_word(c: char) -> bool {
    (97 <= c as int && c as int <= 122)  // 'a' to 'z'
    || (65 <= c as int && c as int <= 90)  // 'A' to 'Z'
    || (48 <= c as int && c as int <= 57)  // '0' to '9'
    || c == '_' || c == '-' || c as int >= 128
}

/// Whether a character is an ASCII decimal digit.
pub open spec fn is_digit(c: char) -> bool {
    48 <= c as int && c as int <= 57
}

/// Decide [`is_ws`].
fn check_ws(c: char) -> (r: bool)
    ensures
        r == is_ws(c),
{
    c == ' ' || c == '\t' || c == '\n' || c == '\r'
}

/// Decide [`is_word`].
fn check_word(c: char) -> (r: bool)
    ensures
        r == is_word(c),
{
    let u = c as u32;
    (97 <= u && u <= 122) || (65 <= u && u <= 90) || (48 <= u && u <= 57) || c == '_' || c == '-'
        || u >= 128
}

/// Decide [`is_digit`].
pub(crate) fn check_digit(c: char) -> (r: bool)
    ensures
        r == is_digit(c),
{
    let u = c as u32;
    48 <= u && u <= 57
}

/// The end of the word run starting at `i`: the first position at or after
/// `i` whose character is no word character.
pub open spec fn word_end(s: Seq<char>, i: int) -> int
    decreases s.len() - i,
{
    if i < 0 || i >= s.len() || !is_word(s[i]) {
        i
    } else {
        word_end(s, i + 1)
    }
}

/// The end of the symbol run starting at `i`: the first position at or after
/// `i` whose character is whitespace, a word character or a quote.
pub open spec fn sym_end(s: Seq<char>, i: int) -> int
    decreases s.len() - i,
{
    if i < 0 || i >= s.len() || is_ws(s[i]) || is_word(s[i]) || s[i] == '"' {
        i
    } else {
        sym_end(s, i + 1)
    }
}

/// The position of the last quote at or after `from`, scanning down from
/// `j`; one less than `from` when there is none.
pub open spec fn last_quote(s: Seq<char>, from: int, j: int) -> int
    decreases j - from + 1,
{
    if j < from || j >= s.len() {
        from - 1
    } else if s[j] == '"' {
        j
    } else {
        last_quote(s, from, j - 1)
    }
}

/// The numeric value of a digit run, most significant digit first.
pub open spec fn digits_val(s: Seq<char>) -> int
    decreases s.len(),
{
    if s.len() == 0 {
        0
    } else {
        digits_val(s.drop_last()) * 10 + (s.last() as int - 48)
    }
}

/// Whether every character of the run is a decimal digit.
pub open spec fn all_digits(s: Seq<char>) -> bool {
    forall|i: int| 0 <= i < s.len() ==> is_digit(#[trigger] s[i])
}

/// The signed-integer value of a word, when it is an integer literal that
/// fits the machine integer range: an optional leading minus sign, then one
/// or more decimal digits.
pub open spec fn int_spec(w: Seq<char>) -> Option<int> {
    if w.len() >= 2 && w[0] == '-' && all_digits(w.skip(1)) && -digits_val(w.skip(1))
        >= isize::MIN as int {
        Option::Some(-digits_val(w.skip(1)))
    } else if w.len() >= 1 && all_digits(w) && digits_val(w) <= isize::MAX as int {
        Option::Some(digits_val(w))
    } else {
        Option::None
    }
}

/// The token a word run stands for: a reserved field keyword or its alias,
/// the literal `or`, a signed-integer literal, or free text.
pub open spec fn word_token(w: Seq<char>) -> LexTok {
    if w == "name"@ || w == "n"@ {
        LexTok::Name
    } else if w == "description"@ || w == "d"@ {
        LexTok::Desc
    } else if w == "rarity"@ || w == "r"@ {
        LexTok::Rarity
    } else if w == "temple"@ || w == "tp"@ {
        LexTok::Temple
    } else if w == "tribe"@ || w == "tb"@ {
        LexTok::Tribe
    } else if w == "attack"@ || w == "a"@ {
        LexTok::Attack
    } else if w == "health"@ || w == "h"@ {
        LexTok::Health
    } else if w == "sigil"@ || w == "s"@ {
        LexTok::Sigil
    } else if w == "spatk"@ || w == "sp"@ {
        LexTok::SpAtk
    } else if w == "cost"@ || w == "c"@ {
        LexTok::Costs
    } else if w == "costtype"@ || w == "ct"@ {
        LexTok::CostType
    } else if w == "trait"@ || w == "tr"@ {
        LexTok::Trait
    } else if w == "or"@ {
        LexTok::Or
    } else {
        match int_spec(w) {
            Option::Some(v) => LexTok::Num(v),
            Option::None => LexTok::Str(w),
        }
    }
}

/// The token one symbol character stands for, if any.
pub open spec fn single_sym(c: char) -> Option<LexTok> {
    if c == '(' {
        Option::Some(LexTok::OpenParen)
    } else if c == ')' {
        Option::Some(LexTok::CloseParen)
    } else if c == '!' {
        Option::Some(LexTok::Not)
    } else if c == ':' {
        Option::Some(LexTok::Colon)
    } else if c == '=' {
        Option::Some(LexTok::Equal)
    } else if c == '>' {
        Option::Some(LexTok::Greater)
    } else if c == '<' {
        Option::Some(LexTok::Less)
    } else {
        Option::None
    }
}

/// The tokens of a symbol run taken one character at a time; the error is
/// the first unrecognized character.
pub open spec fn sym_tokens_chars(w: Seq<char>) -> Result<Seq<LexTok>, Seq<char>>
    decreases w.len(),
{
    if w.len() == 0 {
        Result::Ok(Seq::empty())
    } else {
        match single_sym(w[0]) {
            Option::None => Result::Err(w.take(1)),
            Option::Some(t) => match sym_tokens_chars(w.skip(1)) {
                Result::Ok(rest) => Result::Ok(seq![t] + rest),
                Result::Err(e) => Result::Err(e),
            },
        }
    }
}

/// The tokens of a whole symbol run: the two-character compounds when the
/// run is exactly one of them, else the run decomposed character by
/// character.
pub open spec fn sym_run(w: Seq<char>) -> Result<Seq<LexTok>, Seq<char>> {
    if w =~= seq!['>', '='] {
        Result::Ok(seq![LexTok::GreaterEq])
    } else if w =~= seq!['<', '='] {
        Result::Ok(seq![LexTok::LessEq])
    } else {
        sym_tokens_chars(w)
    }
}

/// The word run never moves backward and stops at the input's end.
pub proof fn lemma_word_end_bounds(s: Seq<char>, i: int)
    requires
        0 <= i <= s.len(),
    ensures
        i <= word_end(s, i) <= s.len(),
    decreases s.len() - i,
{
    if i < s.len() && is_word(s[i]) {
        lemma_word_end_bounds(s, i + 1);
    }
}

/// The symbol run never moves backward and stops at the input's end.
pub proof fn lemma_sym_end_bounds(s: Seq<char>, i: int)
    requires
        0 <= i <= s.len(),
    ensures
        i <= sym_end(s, i) <= s.len(),
    decreases s.len() - i,
{
    if i < s.len() && !is_ws(s[i]) && !is_word(s[i]) && s[i] != '"' {
        lemma_sym_end_bounds(s, i + 1);
    }
}

/// The last quote found lies between one before `from` and `j`.
pub proof fn lemma_last_quote_bounds(s: Seq<char>, from: int, j: int)
    ensures
        from - 1 <= last_quote(s, from, j),
        last_quote(s, from, j) <= j || last_quote(s, from, j) == from - 1,
        last_quote(s, from, j) < s.len() || last_quote(s, from, j) == from - 1,
    decreases j - from + 1,
{
    if !(j < from || j >= s.len()) && s[j] != '"' {
        lemma_last_quote_bounds(s, from, j - 1);
    }
}

/// The tokens of the input from position `i` on, without the terminating
/// end-of-input token; the error is the offending text of the first
/// unrecognized symbol or lone quote.
pub open spec fn lex_from(s: Seq<char>, i: int) -> Result<Seq<LexTok>, Seq<char>>
    decreases s.len() - i,
    via lex_from_decreases
{
    if i < 0 || i >= s.len() {
        Result::Ok(Seq::empty())
    } else if s[i] == '"' {
        let q = last_quote(s, i + 1, s.len() - 1);
        if q >= i + 2 {
            match lex_from(s, q + 1) {
                Result::Ok(rest) => Result::Ok(
                    seq![LexTok::Str(s.subrange(i + 1, q))] + rest,
                ),
                Result::Err(e) => Result::Err(e),
            }
        } else {
            Result::Err(s.subrange(i, i + 1))
        }
    } else if is_ws(s[i]) {
        lex_from(s, i + 1)
    } else if is_word(s[i]) {
        let e = word_end(s, i);
        match lex_from(s, e) {
            Result::Ok(rest) => Result::Ok(seq![word_token(s.subrange(i, e))] + rest),
            Result::Err(er) => Result::Err(er),
        }
    } else {
        let e = sym_end(s, i);
        match sym_run(s.subrange(i, e)) {
            Result::Ok(toks) => match lex_from(s, e) {
                Result::Ok(rest) => Result::Ok(toks + rest),
                Result::Err(er) => Result::Err(er),
            },
            Result::Err(er) => Result::Err(er),
        }
    }
}



#[via_fn]
proof fn lex_from_decreases(s: Seq<char>, i: int) {
    if 0 <= i < s.len() {
        lemma_word_end_bounds(s, i);
        lemma_sym_end_bounds(s, i);
        lemma_last_quote_bounds(s, i + 1, s.len() - 1);
        if is_word(s[i]) {
            assert(word_end(s, i) == word_end(s, i + 1));
            lemma_word_end_bounds(s, i + 1);
        }
        if !is_ws(s[i]) && !is_word(s[i]) && s[i] != '"' {
            assert(sym_end(s, i) == sym_end(s, i + 1));
            lemma_sym_end_bounds(s, i + 1);
        }
    }
}


/// Decide which word run starts at `i`: scan to its end.
fn word_end_exec(cs: &Vec<char>, i: usize) -> (e: usize)
    requires
        i <= cs@.len(),
    ensures
        e as int == word_end(cs@, i as int),
        i <= e <= cs@.len(),
    decreases cs@.len() - i,
{
    let mut j = i;
    let n = cs.len();
    while j < n && check_word(cs[j])
        invariant
            i <= j <= n,
            n == cs@.len(),
            word_end(cs@, i as int) == word_end(cs@, j as int),
        decreases n - j,
    {
        proof {
            assert(word_end(cs@, j as int) == word_end(cs@, j + 1));
        }
        j = j + 1;
    }
    proof {
        assert(word_end(cs@, j as int) == j);
    }
    j
}

/// Decide which symbol run starts at `i`: scan to its end.
fn sym_end_exec(cs: &Vec<char>, i: usize) -> (e: usize)
    requires
        i <= cs@.len(),
    ensures
        e as int == sym_end(cs@, i as int),
        i <= e <= cs@.len(),
    decreases cs@.len() - i,
{
    let mut j = i;
    let n = cs.len();
    while j < n && !check_ws(cs[j]) && !check_word(cs[j]) && cs[j] != '"'
        invariant
            i <= j <= n,
            n == cs@.len(),
            sym_end(cs@, i as int) == sym_end(cs@, j as int),
        decreases n - j,
    {
        proof {
            assert(sym_end(cs@, j as int) == sym_end(cs@, j + 1));
        }
        j = j + 1;
    }
    proof {
        assert(sym_end(cs@, j as int) == j);
    }
    j
}

/// Find the last quote at or after `from`, scanning down from the input's
/// end.
fn last_quote_exec(cs: &Vec<char>, from: usize) -> (r: Option<usize>)
    requires
        from <= cs@.len(),
    ensures
        r matches Some(q) ==> from <= q < cs@.len() && q as int == last_quote(
            cs@,
            from as int,
            cs@.len() - 1,
        ),
        r is None ==> last_quote(cs@, from as int, cs@.len() - 1) == from - 1,
{
    let n = cs.len();
    let mut j = n;
    while j > from
        invariant
            from <= j <= n,
            n == cs@.len(),
            last_quote(cs@, from as int, n as int - 1) == last_quote(cs@, from as int, j - 1),
        decreases j,
    {
        j = j - 1;
        if cs[j] == '"' {
            proof {
                assert(last_quote(cs@, from as int, j as int) == j);
            }
            return Some(j);
        }
        proof {
            assert(last_quote(cs@, from as int, j as int) == last_quote(cs@, from as int, j - 1));
        }
    }
    proof {
        assert(last_quote(cs@, from as int, from - 1) == from - 1);
    }
    None
}

/// Whether a digit run is nowhere negative.
proof fn lemma_digits_val_nonneg(s: Seq<char>)
    requires
        all_digits(s),
    ensures
        digits_val(s) >= 0,
    decreases s.len(),
{
    if s.len() > 0 {
        assert(all_digits(s.drop_last())) by {
            assert(forall|i: int| 0 <= i < s.len() - 1 ==> is_digit(#[trigger] s.drop_last()[i]));
        }
        lemma_digits_val_nonneg(s.drop_last());
    }
}

/// A digit run is worth at least any of its prefixes.
proof fn lemma_digits_val_prefix(s: Seq<char>, k: int)
    requires
        all_digits(s),
        0 <= k <= s.len(),
    ensures
        digits_val(s.take(k)) <= digits_val(s),
    decreases s.len() - k,
{
    if k == s.len() {
        assert(s.take(k) =~= s);
    } else {
        lemma_digits_val_prefix(s, k + 1);
        let p = s.take(k + 1);
        assert(p.drop_last() =~= s.take(k));
        assert(all_digits(s.take(k))) by {
            assert(forall|i: int| 0 <= i < k ==> is_digit(#[trigger] s.take(k)[i]));
        }
        lemma_digits_val_nonneg(s.take(k));
        assert(is_digit(p.last()));
        assert(digits_val(p) == digits_val(s.take(k)) * 10 + (p.last() as int - 48));
        assert(digits_val(s.take(k)) <= digits_val(p));
    }
}

/// Parse a word as a signed machine integer, exactly when [`int_spec`] gives
/// it a value.
pub(crate) fn parse_int(cs: &Vec<char>) -> (r: Option<isize>)
    ensures
        r is Some <==> int_spec(cs@) is Some,
        r matches Some(v) ==> int_spec(cs@) == Option::Some(v as int),
{
    let n = cs.len();
    if n == 0 {
        return None;
    }
    let neg = cs[0] == '-';
    let start: usize = if neg {
        1
    } else {
        0
    };
    if start >= n {
        return None;
    }
    let limit: i128 = if neg {
        isize::MAX as i128 + 1
    } else {
        isize::MAX as i128
    };
    let ghost w = cs@.subrange(start as int, n as int);
    let mut acc: i128 = 0;
    let mut j = start;
    while j < n
        invariant
            start <= j <= n,
            n == cs@.len(),
            start < n,
            w == cs@.subrange(start as int, n as int),
            forall|k: int| start <= k < j ==> is_digit(#[trigger] cs@[k]),
            acc == digits_val(cs@.subrange(start as int, j as int)),
            0 <= acc <= limit,
            neg ==> limit == isize::MAX as i128 + 1,
            !neg ==> limit == isize::MAX as i128,
            neg == (cs@[0] == '-'),
            neg ==> start == 1,
            !neg ==> start == 0,
        decreases n - j,
    {
        let c = cs[j];
        if !check_digit(c) {
            proof {
                assert(!is_digit(cs@[j as int]));
                if neg {
                    assert(cs@.skip(1)[j - 1] == cs@[j as int]);
                }
            }
            return None;
        }
        let d: u32 = (c as u32) - 48;
        proof {
            assert(d <= 9);
            assert(acc <= isize::MAX as i128 + 1);
            let p = cs@.subrange(start as int, j + 1);
            assert(p.drop_last() =~= cs@.subrange(start as int, j as int));
            assert(p.last() == cs@[j as int]);
        }
        acc = acc * 10 + d as i128;
        j = j + 1;
        if acc > limit {
            proof {
                assert(w.take(j - start) =~= cs@.subrange(start as int, j as int));
                if all_digits(w) {
                    lemma_digits_val_prefix(w, j - start);
                }
                if neg {
                    assert(cs@.skip(1) =~= w);
                    assert(!is_digit('-'));
                    assert(cs@[0] == '-');
                } else {
                    assert(cs@ =~= w);
                }
            }
            return None;
        }
    }
    proof {
        assert(w =~= cs@.subrange(start as int, n as int));
        assert(all_digits(w)) by {
            assert(forall|i: int| 0 <= i < w.len() ==> is_digit(#[trigger] w[i]));
        }
        if neg {
            assert(cs@.skip(1) =~= w);
        } else {
            assert(cs@ =~= w);
            assert(!is_digit('-'));
        }
    }
    if neg {
        Some((-acc) as isize)
    } else {
        Some(acc as isize)
    }
}

/// Map a word run to its token, exactly as [`word_token`] states.
fn word_token_exec(w: String) -> (r: Token)
    ensures
        r@ == word_token(w@),
{
    if crate::text::str_eq(&w, "name") || crate::text::str_eq(&w, "n") {
        Token::Name
    } else if crate::text::str_eq(&w, "description") || crate::text::str_eq(&w, "d") {
        Token::Desc
    } else if crate::text::str_eq(&w, "rarity") || crate::text::str_eq(&w, "r") {
        Token::Rarity
    } else if crate::text::str_eq(&w, "temple") || crate::text::str_eq(&w, "tp") {
        Token::Temple
    } else if crate::text::str_eq(&w, "tribe") || crate::text::str_eq(&w, "tb") {
        Token::Tribe
    } else if crate::text::str_eq(&w, "attack") || crate::text::str_eq(&w, "a") {
        Token::Attack
    } else if crate::text::str_eq(&w, "health") || crate::text::str_eq(&w, "h") {
        Token::Health
    } else if crate::text::str_eq(&w, "sigil") || crate::text::str_eq(&w, "s") {
        Token::Sigil
    } else if crate::text::str_eq(&w, "spatk") || crate::text::str_eq(&w, "sp") {
        Token::SpAtk
    } else if crate::text::str_eq(&w, "cost") || crate::text::str_eq(&w, "c") {
        Token::Costs
    } else if crate::text::str_eq(&w, "costtype") || crate::text::str_eq(&w, "ct") {
        Token::CostType
    } else if crate::text::str_eq(&w, "trait") || crate::text::str_eq(&w, "tr") {
        Token::Trait
    } else if crate::text::str_eq(&w, "or") {
        Token::Or
    } else {
        let chars = crate::text::chars_of(w.as_str());
        match parse_int(&chars) {
            Some(v) => Token::Num(v),
            None => Token::Str(w),
        }
    }
}

/// Map one symbol character to its token, if it has one.
fn single_sym_exec(c: char) -> (r: Option<Token>)
    ensures
        r is Some <==> single_sym(c) is Some,
        r matches Some(t) ==> single_sym(c) == Option::Some(t@),
{
    if c == '(' {
        Some(Token::OpenParen)
    } else if c == ')' {
        Some(Token::CloseParen)
    } else if c == '!' {
        Some(Token::Not)
    } else if c == ':' {
        Some(Token::Colon)
    } else if c == '=' {
        Some(Token::Equal)
    } else if c == '>' {
        Some(Token::Greater)
    } else if c == '<' {
        Some(Token::Less)
    } else {
        None
    }
}

/// Lex the symbol run `cs[i..e]` one character at a time, appending its
/// tokens, exactly as [`sym_tokens_chars`] states.
fn match_sym_chars(query: &str, cs: &Vec<char>, i: usize, e: usize, out: &mut Vec<Token>) -> (r:
    Result<(), String>)
    requires
        cs@ == query@,
        i <= e <= cs@.len(),
    ensures
        match sym_tokens_chars(cs@.subrange(i as int, e as int)) {
            Result::Ok(ts) => r is Ok && final(out)@.map_values(|t: Token| t@) == old(
                out,
            )@.map_values(|t: Token| t@) + ts,
            Result::Err(wr) => r matches Err(es) && es@ == wr,
        },
    decreases e - i,
{
    let ghost w = cs@.subrange(i as int, e as int);
    if i == e {
        proof {
            assert(final(out)@.map_values(|t: Token| t@) =~= old(out)@.map_values(|t: Token| t@)
                + Seq::<LexTok>::empty());
        }
        return Ok(());
    }
    proof {
        assert(w[0] == cs@[i as int]);
        assert(w.skip(1) =~= cs@.subrange(i + 1, e as int));
    }
    match single_sym_exec(cs[i]) {
        None => {
            let es = query.substring_char(i, i + 1).to_owned();
            proof {
                assert(es@ =~= w.take(1));
            }
            Err(es)
        },
        Some(t) => {
            let ghost before = out@;
            out.push(t);
            proof {
                assert(out@.map_values(|t: Token| t@) =~= before.map_values(|t: Token| t@)
                    + seq![t@]);
            }
            let res = match_sym_chars(query, cs, i + 1, e, out);
            proof {
                if sym_tokens_chars(w.skip(1)) is Ok {
                    let rest = sym_tokens_chars(w.skip(1))->Ok_0;
                    assert(before.map_values(|t: Token| t@) + seq![t@] + rest =~= before.map_values(
                        |t: Token| t@,
                    ) + (seq![t@] + rest));
                }
            }
            res
        },
    }
}

/// Lex a whole symbol run, appending its tokens, exactly as [`sym_run`]
/// states.
fn match_sym(query: &str, cs: &Vec<char>, i: usize, e: usize, out: &mut Vec<Token>) -> (r: Result<
    (),
    String,
>)
    requires
        cs@ == query@,
        i <= e <= cs@.len(),
    ensures
        match sym_run(cs@.subrange(i as int, e as int)) {
            Result::Ok(ts) => r is Ok && final(out)@.map_values(|t: Token| t@) == old(
                out,
            )@.map_values(|t: Token| t@) + ts,
            Result::Err(wr) => r matches Err(es) && es@ == wr,
        },
{
    let ghost w = cs@.subrange(i as int, e as int);
    if e - i == 2 && cs[i] == '>' && cs[i + 1] == '=' {
        proof {
            assert(w =~= seq!['>', '=']);
        }
        let ghost before = out@;
        out.push(Token::GreaterEq);
        proof {
            assert(out@.map_values(|t: Token| t@) =~= before.map_values(|t: Token| t@) + seq![
                LexTok::GreaterEq,
            ]);
        }
        Ok(())
    } else if e - i == 2 && cs[i] == '<' && cs[i + 1] == '=' {
        proof {
            assert(w =~= seq!['<', '=']);
        }
        let ghost before = out@;
        out.push(Token::LessEq);
        proof {
            assert(out@.map_values(|t: Token| t@) =~= before.map_values(|t: Token| t@) + seq![
                LexTok::LessEq,
            ]);
        }
        Ok(())
    } else {
        proof {
            if w =~= seq!['>', '='] {
                assert(w.len() == 2 && w[0] == '>' && w[1] == '=');
            }
            if w =~= seq!['<', '='] {
                assert(w.len() == 2 && w[0] == '<' && w[1] == '=');
            }
        }
        match_sym_chars(query, cs, i, e, out)
    }
}

/// Lex the input from position `i` on, appending the tokens, exactly as
/// [`lex_from`] states.
fn lex_exec(query: &str, cs: &Vec<char>, i: usize, out: &mut Vec<Token>) -> (r: Result<(), String>)
    requires
        cs@ == query@,
        i <= cs@.len(),
    ensures
        match lex_from(query@, i as int) {
            Result::Ok(ts) => r is Ok && final(out)@.map_values(|t: Token| t@) == old(
                out,
            )@.map_values(|t: Token| t@) + ts,
            Result::Err(wr) => r matches Err(es) && es@ == wr,
        },
    decreases cs@.len() - i,
{
    let n = cs.len();
    if i >= n {
        proof {
            assert(final(out)@.map_values(|t: Token| t@) =~= old(out)@.map_values(|t: Token| t@)
                + Seq::<LexTok>::empty());
        }
        return Ok(());
    }
    let c = cs[i];
    if c == '"' {
        let qo = last_quote_exec(cs, i + 1);
        match qo {
            Some(q) if q >= i + 2 => {
                let content = query.substring_char(i + 1, q).to_owned();
                let ghost before = out@;
                out.push(Token::Str(content));
                proof {
                    assert(out@.map_values(|t: Token| t@) =~= before.map_values(|t: Token| t@)
                        + seq![LexTok::Str(cs@.subrange(i + 1, q as int))]);
                }
                let res = lex_exec(query, cs, q + 1, out);
                proof {
                    if lex_from(query@, q + 1) is Ok {
                        let rest = lex_from(query@, q + 1)->Ok_0;
                        let stok = seq![LexTok::Str(cs@.subrange(i + 1, q as int))];
                        assert(before.map_values(|t: Token| t@) + stok + rest =~= before.map_values(
                            |t: Token| t@,
                        ) + (stok + rest));
                    }
                }
                res
            },
            _ => {
                let es = query.substring_char(i, i + 1).to_owned();
                proof {
                    assert(es@ =~= query@.subrange(i as int, i + 1));
                }
                Err(es)
            },
        }
    } else if check_ws(c) {
        lex_exec(query, cs, i + 1, out)
    } else if check_word(c) {
        let e = word_end_exec(cs, i);
        proof {
            assert(word_end(cs@, i as int) == word_end(cs@, i + 1));
            lemma_word_end_bounds(cs@, i + 1);
        }
        let wstr = query.substring_char(i, e).to_owned();
        let t = word_token_exec(wstr);
        let ghost before = out@;
        out.push(t);
        proof {
            assert(out@.map_values(|t: Token| t@) =~= before.map_values(|t: Token| t@) + seq![
                word_token(cs@.subrange(i as int, e as int)),
            ]);
        }
        let res = lex_exec(query, cs, e, out);
        proof {
            if lex_from(query@, e as int) is Ok {
                let rest = lex_from(query@, e as int)->Ok_0;
                let wtok = seq![word_token(cs@.subrange(i as int, e as int))];
                assert(before.map_values(|t: Token| t@) + wtok + rest =~= before.map_values(
                    |t: Token| t@,
                ) + (wtok + rest));
            }
        }
        res
    } else {
        let e = sym_end_exec(cs, i);
        proof {
            assert(sym_end(cs@, i as int) == sym_end(cs@, i + 1));
            lemma_sym_end_bounds(cs@, i + 1);
        }
        let ghost before = out@;
        match match_sym(query, cs, i, e, out) {
            Err(es) => Err(es),
            Ok(()) => {
                let res = lex_exec(query, cs, e, out);
                proof {
                    if sym_run(cs@.subrange(i as int, e as int)) is Ok && lex_from(query@, e as int)
                        is Ok {
                        let toks = sym_run(cs@.subrange(i as int, e as int))->Ok_0;
                        let rest = lex_from(query@, e as int)->Ok_0;
                        assert(before.map_values(|t: Token| t@) + toks + rest =~= before.map_values(
                            |t: Token| t@,
                        ) + (toks + rest));
                    }
                }
                res
            },
        }
    }
}

/// Tokenize a query: the token stream of [`lex_from`] with the end-of-input
/// token appended, or the offending text of the first unrecognized symbol.
pub fn tokenize_query(query: &str) -> (r: Result<Vec<Token>, String>)
    ensures
        match lex_from(query@, 0) {
            Result::Ok(ts) => r matches Ok(v) && v@.map_values(|t: Token| t@) == ts.push(
                LexTok::Eof,
            ),
            Result::Err(wr) => r matches Err(es) && es@ == wr,
        },
{
    let cs = crate::text::chars_of(query);
    let mut out: Vec<Token> = Vec::new();
    proof {
        assert(out@.map_values(|t: Token| t@) =~= Seq::<LexTok>::empty());
    }
    match lex_exec(query, &cs, 0, &mut out) {
        Err(es) => Err(es),
        Ok(()) => {
            let ghost before = out@;
            out.push(Token::Eof);
            proof {
                if lex_from(query@, 0) is Ok {
                    let ts = lex_from(query@, 0)->Ok_0;
                    assert(out@.map_values(|t: Token| t@) =~= before.map_values(|t: Token| t@)
                        + seq![LexTok::Eof]);
                    assert(Seq::<LexTok>::empty() + ts =~= ts);
                    assert(ts + seq![LexTok::Eof] =~= ts.push(LexTok::Eof));
                }
            }
            Ok(out)
        },
    }
}

} // verus!
