//! The query parser: a recursive-descent pass from the token stream to an
//! abstract syntax tree of keyword nodes.
//!
//! The grammar, informally:
//!
//! ```text
//! program = { expr }
//! expr    = not { "or" not }
//! not     = [ "!" ] keyword
//! keyword = STR_FIELD ":" ( NUM | STR )
//!         | CMP_FIELD ( ":" | "=" | ">" | "<" | ">=" | "<=" ) NUM
//!         | "(" expr ")"
//! ```
//!
//! The `or` chain folds left-associatively. Parsing starts at the first
//! token and stops at the end-of-input token; a parse function meeting the
//! end of the input where it is not idle reports an error rather than
//! failing silently.

use vstd::prelude::*;

use crate::lexer::{LexTok, Token};
use crate::query::QueryOrder;

verus! {

/// A parsed keyword node: one field selector with its operand, or a boolean
/// combination of keyword nodes.
#[derive(Debug)]
pub enum Keyword {
    /// A name query with its literal.
    Name(String),
    /// A description query with its literal.
    Desc(String),
    /// A rarity query with its literal.
    Rarity(String),
    /// A temple query with its literal.
    Temple(String),
    /// A tribe query with its literal.
    Tribe(String),
    /// An attack comparison with its comparator and value.
    Attack(QueryOrder, isize),
    /// A health comparison with its comparator and value.
    Health(QueryOrder, isize),
    /// A sigil query with its literal.
    Sigil(String),
    /// A special-attack query with its literal.
    SpAtk(String),
    /// A cost query with its shorthand literal.
    Costs(String),
    /// A cost-kind query with its literal.
    CostType(String),
    /// A trait query with its literal.
    Trait(String),
    /// The disjunction of two keyword nodes.
    Or(Box<Keyword>, Box<Keyword>),
    /// The negation of a keyword node.
    Not(Box<Keyword>),
}

/// The mathematical model of a keyword node: literals carried as their
/// characters.
pub enum KwNode {
    /// A name query.
    Name(Seq<char>),
    /// A description query.
    Desc(Seq<char>),
    /// A rarity query.
    Rarity(Seq<char>),
    /// A temple query.
    Temple(Seq<char>),
    /// A tribe query.
    Tribe(Seq<char>),
    /// An attack comparison.
    Attack(QueryOrder, int),
    /// A health comparison.
    Health(QueryOrder, int),
    /// A sigil query.
    Sigil(Seq<char>),
    /// A special-attack query.
    SpAtk(Seq<char>),
    /// A cost query.
    Costs(Seq<char>),
    /// A cost-kind query.
    CostType(Seq<char>),
    /// A trait query.
    Trait(Seq<char>),
    /// The disjunction of two keyword nodes.
    Or(Box<KwNode>, Box<KwNode>),
    /// The negation of a keyword node.
    Not(Box<KwNode>),
}

/// The model of a keyword node, literals carried as their characters.
pub open spec fn kw_view(k: Keyword) -> KwNode
    decreases k,
{
    match k {
        Keyword::Name(s) => KwNode::Name(s@),
        Keyword::Desc(s) => KwNode::Desc(s@),
        Keyword::Rarity(s) => KwNode::Rarity(s@),
        Keyword::Temple(s) => KwNode::Temple(s@),
        Keyword::Tribe(s) => KwNode::Tribe(s@),
        Keyword::Attack(o, n) => KwNode::Attack(o, n as int),
        Keyword::Health(o, n) => KwNode::Health(o, n as int),
        Keyword::Sigil(s) => KwNode::Sigil(s@),
        Keyword::SpAtk(s) => KwNode::SpAtk(s@),
        Keyword::Costs(s) => KwNode::Costs(s@),
        Keyword::CostType(s) => KwNode::CostType(s@),
        Keyword::Trait(s) => KwNode::Trait(s@),
        Keyword::Or(a, b) => KwNode::Or(Box::new(kw_view(*a)), Box::new(kw_view(*b))),
        Keyword::Not(a) => KwNode::Not(Box::new(kw_view(*a))),
    }
}

impl View for Keyword {
    type V = KwNode;

    open spec fn view(&self) -> KwNode {
        kw_view(*self)
    }
}

/// A parse error: an unexpected token where a keyword should start, or a
/// mismatch against the expected token or set of tokens; each carries the
/// offending token.
#[derive(Debug)]
pub enum ParseErr {
    /// A token that cannot start a keyword.
    InvalidKeyword(Token),
    /// The expected token and the token found.
    ExpectToken(Token, Token),
    /// The expected tokens, one of which was required, and the token found.
    ExpectTokens(Vec<Token>, Token),
}

/// The mathematical model of a parse error.
pub enum ErrNode {
    /// A token that cannot start a keyword.
    InvalidKeyword(LexTok),
    /// The expected token and the token found.
    ExpectToken(LexTok, LexTok),
    /// The expected tokens and the token found.
    ExpectTokens(Seq<LexTok>, LexTok),
}

impl View for ParseErr {
    type V = ErrNode;

    open spec fn view(&self) -> ErrNode {
        match self {
            ParseErr::InvalidKeyword(t) => ErrNode::InvalidKeyword(t@),
            ParseErr::ExpectToken(a, b) => ErrNode::ExpectToken(a@, b@),
            ParseErr::ExpectTokens(a, b) => ErrNode::ExpectTokens(
                a@.map_values(|t: Token| t@),
                b@,
            ),
        }
    }
}

/// The decimal digit character of a value below ten.
pub open spec fn digit_char(d: int) -> char {
    if d == 0 {
        '0'
    } else if d == 1 {
        '1'
    } else if d == 2 {
        '2'
    } else if d == 3 {
        '3'
    } else if d == 4 {
        '4'
    } else if d == 5 {
        '5'
    } else if d == 6 {
        '6'
    } else if d == 7 {
        '7'
    } else if d == 8 {
        '8'
    } else {
        '9'
    }
}

/// The decimal digits of a non-negative value, most significant first.
pub open spec fn dec_chars_nat(m: int) -> Seq<char>
    decreases m,
{
    if m < 10 {
        seq![digit_char(m)]
    } else {
        dec_chars_nat(m / 10).push(digit_char(m % 10))
    }
}

/// The decimal representation of a signed value.
pub open spec fn dec_chars(n: int) -> Seq<char> {
    if n < 0 {
        seq!['-'] + dec_chars_nat(-n)
    } else {
        dec_chars_nat(n)
    }
}

/// The characters a literal token stands for when a string-valued field
/// reads it: a string literal's characters, or a number rendered in
/// decimal.
pub open spec fn literal_chars(t: LexTok) -> Option<Seq<char>> {
    match t {
        LexTok::Str(s) => Option::Some(s),
        LexTok::Num(n) => Option::Some(dec_chars(n)),
        _ => Option::None,
    }
}

/// The string-valued keyword node for a field token and its literal.
pub open spec fn str_kw_node(field: LexTok, val: Seq<char>) -> KwNode {
    match field {
        LexTok::Name => KwNode::Name(val),
        LexTok::Desc => KwNode::Desc(val),
        LexTok::Rarity => KwNode::Rarity(val),
        LexTok::Temple => KwNode::Temple(val),
        LexTok::Tribe => KwNode::Tribe(val),
        LexTok::Sigil => KwNode::Sigil(val),
        LexTok::SpAtk => KwNode::SpAtk(val),
        LexTok::Costs => KwNode::Costs(val),
        LexTok::CostType => KwNode::CostType(val),
        _ => KwNode::Trait(val),
    }
}

/// Whether a token starts a string-valued keyword.
pub open spec fn is_str_field(t: LexTok) -> bool {
    t == LexTok::Name || t == LexTok::Desc || t == LexTok::Rarity || t == LexTok::Temple || t
        == LexTok::Tribe || t == LexTok::Sigil || t == LexTok::SpAtk || t == LexTok::Costs || t
        == LexTok::CostType || t == LexTok::Trait
}

/// Whether a token starts a comparison keyword.
pub open spec fn is_cmp_field(t: LexTok) -> bool {
    t == LexTok::Attack || t == LexTok::Health
}

/// The comparator a comparison token stands for, if any.
pub open spec fn cmp_of(t: LexTok) -> Option<QueryOrder> {
    match t {
        LexTok::Colon => Option::Some(QueryOrder::Equal),
        LexTok::Equal => Option::Some(QueryOrder::Equal),
        LexTok::Greater => Option::Some(QueryOrder::Greater),
        LexTok::GreaterEq => Option::Some(QueryOrder::GreaterEqual),
        LexTok::Less => Option::Some(QueryOrder::Less),
        LexTok::LessEq => Option::Some(QueryOrder::LessEqual),
        _ => Option::None,
    }
}

/// The comparison tokens, in the order the expected-one-of error reports
/// them.
pub open spec fn cmp_expected() -> Seq<LexTok> {
    seq![
        LexTok::Colon,
        LexTok::Equal,
        LexTok::Greater,
        LexTok::GreaterEq,
        LexTok::Less,
        LexTok::LessEq,
    ]
}

/// Parse a string-valued keyword: the field token, a colon, then a string
/// or number literal.
pub open spec fn sp_parse_str_kw(ts: Seq<LexTok>) -> (Result<KwNode, ErrNode>, Seq<LexTok>) {
    if ts.len() < 2 {
        (Result::Err(ErrNode::ExpectToken(LexTok::Colon, LexTok::Eof)), ts.skip(1))
    } else if ts[1] != LexTok::Colon {
        (Result::Err(ErrNode::ExpectToken(LexTok::Colon, ts[1])), ts.skip(2))
    } else if ts.len() < 3 {
        (
            Result::Err(
                ErrNode::ExpectTokens(seq![LexTok::Num(0), LexTok::Str(Seq::empty())], LexTok::Eof),
            ),
            ts.skip(2),
        )
    } else {
        match literal_chars(ts[2]) {
            Option::Some(val) => (Result::Ok(str_kw_node(ts[0], val)), ts.skip(3)),
            Option::None => (
                Result::Err(
                    ErrNode::ExpectTokens(seq![LexTok::Num(0), LexTok::Str(Seq::empty())], ts[2]),
                ),
                ts.skip(3),
            ),
        }
    }
}

/// Parse a comparison keyword: the field token, a comparator, then a number
/// literal.
pub open spec fn sp_parse_cmp_kw(ts: Seq<LexTok>) -> (Result<KwNode, ErrNode>, Seq<LexTok>) {
    if ts.len() < 2 {
        (Result::Err(ErrNode::ExpectTokens(cmp_expected(), LexTok::Eof)), ts.skip(1))
    } else {
        match cmp_of(ts[1]) {
            Option::None => (Result::Err(ErrNode::ExpectTokens(cmp_expected(), ts[1])), ts.skip(2)),
            Option::Some(cmp) => {
                if ts.len() < 3 {
                    (Result::Err(ErrNode::ExpectToken(LexTok::Num(0), LexTok::Eof)), ts.skip(2))
                } else {
                    match ts[2] {
                        LexTok::Num(n) => (
                            Result::Ok(
                                if ts[0] == LexTok::Attack {
                                    KwNode::Attack(cmp, n)
                                } else {
                                    KwNode::Health(cmp, n)
                                },
                            ),
                            ts.skip(3),
                        ),
                        _ => (Result::Err(ErrNode::ExpectToken(LexTok::Num(0), ts[2])), ts.skip(3)),
                    }
                }
            },
        }
    }
}

/// Parse one keyword: a string-valued or comparison keyword, or a
/// parenthesized expression.
pub open spec fn sp_parse_keyword(ts: Seq<LexTok>) -> (Result<KwNode, ErrNode>, Seq<LexTok>)
    decreases ts.len(), 0int,
{
    if ts.len() == 0 {
        (Result::Err(ErrNode::InvalidKeyword(LexTok::Eof)), ts)
    } else if is_str_field(ts[0]) {
        sp_parse_str_kw(ts)
    } else if is_cmp_field(ts[0]) {
        sp_parse_cmp_kw(ts)
    } else if ts[0] == LexTok::OpenParen {
        let (r, rest) = sp_parse_or(ts.skip(1));
        if rest.len() >= 1 && rest[0] == LexTok::CloseParen {
            (r, rest.skip(1))
        } else if rest.len() >= 1 {
            (Result::Err(ErrNode::ExpectToken(LexTok::CloseParen, rest[0])), rest.skip(1))
        } else {
            (Result::Err(ErrNode::ExpectToken(LexTok::CloseParen, LexTok::Eof)), rest)
        }
    } else {
        (Result::Err(ErrNode::InvalidKeyword(ts[0])), ts.skip(1))
    }
}

/// Parse a possibly negated keyword.
pub open spec fn sp_parse_not(ts: Seq<LexTok>) -> (Result<KwNode, ErrNode>, Seq<LexTok>)
    decreases ts.len(), 1int,
{
    if ts.len() >= 1 && ts[0] == LexTok::Not {
        let (r, rest) = sp_parse_keyword(ts.skip(1));
        match r {
            Result::Ok(kw) => (Result::Ok(KwNode::Not(Box::new(kw))), rest),
            Result::Err(e) => (Result::Err(e), rest),
        }
    } else {
        sp_parse_keyword(ts)
    }
}

/// Fold further `or`-joined terms onto `left`, left-associatively.
pub open spec fn sp_or_chain(left: KwNode, ts: Seq<LexTok>) -> (Result<KwNode, ErrNode>, Seq<
    LexTok,
>)
    decreases ts.len(), 0int,
{
    if ts.len() >= 1 && ts[0] == LexTok::Or {
        let (r, rest) = sp_parse_not(ts.skip(1));
        match r {
            Result::Err(e) => (Result::Err(e), rest),
            Result::Ok(right) => {
                let joined = KwNode::Or(Box::new(left), Box::new(right));
                if rest.len() < ts.len() {
                    sp_or_chain(joined, rest)
                } else {
                    (Result::Ok(joined), rest)
                }
            },
        }
    } else {
        (Result::Ok(left), ts)
    }
}

/// Parse one expression: a chain of `or`-joined terms.
pub open spec fn sp_parse_or(ts: Seq<LexTok>) -> (Result<KwNode, ErrNode>, Seq<LexTok>)
    decreases ts.len(), 2int,
{
    let (r, rest) = sp_parse_not(ts);
    match r {
        Result::Err(e) => (Result::Err(e), rest),
        Result::Ok(left) => {
            if rest.len() <= ts.len() {
                sp_or_chain(left, rest)
            } else {
                (Result::Ok(left), rest)
            }
        },
    }
}

/// Parse the whole program: expressions until the end-of-input token.
pub open spec fn sp_program(ts: Seq<LexTok>) -> Result<Seq<KwNode>, ErrNode>
    decreases ts.len(),
{
    if ts.len() == 0 || ts[0] == LexTok::Eof {
        Result::Ok(Seq::empty())
    } else {
        let (r, rest) = sp_parse_or(ts);
        match r {
            Result::Err(e) => Result::Err(e),
            Result::Ok(kw) => {
                if rest.len() < ts.len() {
                    match sp_program(rest) {
                        Result::Ok(kws) => Result::Ok(seq![kw] + kws),
                        Result::Err(e) => Result::Err(e),
                    }
                } else {
                    Result::Ok(seq![kw])
                }
            },
        }
    }
}


/// The decimal digit characters, indexable by value.
fn digit_str(d: usize) -> (r: &'static str)
    requires
        d < 10,
    ensures
        r@ =~= seq![digit_char(d as int)],
{
    let digits = "0123456789";
    proof {
        reveal_strlit("0123456789");
    }
    digits.substring_char(d, d + 1)
}

/// Append the decimal digits of `m` to `s`.
fn push_dec_digits(s: &mut String, m: u128)
    ensures
        final(s)@ == old(s)@ + dec_chars_nat(m as int),
    decreases m,
{
    if m < 10 {
        s.append(digit_str(m as usize));
    } else {
        proof {
            assert(m / 10 < m) by (nonlinear_arith)
                requires
                    m >= 10,
            ;
        }
        push_dec_digits(s, m / 10);
        let ghost mid = s@;
        s.append(digit_str((m % 10) as usize));
        proof {
            assert(old(s)@ + dec_chars_nat(m as int / 10) + seq![digit_char(m as int % 10)]
                =~= old(s)@ + dec_chars_nat(m as int));
        }
    }
}

/// Render a signed value in decimal, exactly as [`dec_chars`] states.
fn int_to_string(n: isize) -> (r: String)
    ensures
        r@ == dec_chars(n as int),
{
    let mut s = String::new();
    if n < 0 {
        s.append("-");
        proof {
            reveal_strlit("-");
            assert(Seq::<char>::empty() + "-"@ =~= seq!['-']);
        }
        let m: u128 = (-(n as i128)) as u128;
        push_dec_digits(&mut s, m);
        proof {
            assert(seq!['-'] + dec_chars_nat(m as int) =~= dec_chars(n as int));
        }
    } else {
        let m: u128 = n as u128;
        push_dec_digits(&mut s, m);
        proof {
            assert(Seq::<char>::empty() + dec_chars_nat(m as int) =~= dec_chars(n as int));
        }
    }
    s
}

/// Copy a token, keeping its model.
fn clone_token(t: &Token) -> (r: Token)
    ensures
        r@ == t@,
{
    match t {
        Token::Eof => Token::Eof,
        Token::OpenParen => Token::OpenParen,
        Token::CloseParen => Token::CloseParen,
        Token::Str(s) => Token::Str(s.clone()),
        Token::Num(n) => Token::Num(*n),
        Token::Name => Token::Name,
        Token::Desc => Token::Desc,
        Token::Rarity => Token::Rarity,
        Token::Temple => Token::Temple,
        Token::Tribe => Token::Tribe,
        Token::Attack => Token::Attack,
        Token::Health => Token::Health,
        Token::Sigil => Token::Sigil,
        Token::SpAtk => Token::SpAtk,
        Token::Costs => Token::Costs,
        Token::CostType => Token::CostType,
        Token::Trait => Token::Trait,
        Token::Or => Token::Or,
        Token::Not => Token::Not,
        Token::Colon => Token::Colon,
        Token::Equal => Token::Equal,
        Token::Greater => Token::Greater,
        Token::GreaterEq => Token::GreaterEq,
        Token::Less => Token::Less,
        Token::LessEq => Token::LessEq,
    }
}

/// The recursive-descent parser: a fixed token sequence consumed through a
/// cursor, with one token of lookahead.
pub struct QueryParser {
    tokens: Vec<Token>,
    pos: usize,
}

impl QueryParser {
    /// The tokens not yet consumed, in order.
    pub closed spec fn remaining(self) -> Seq<LexTok> {
        self.tokens@.map_values(|t: Token| t@).skip(self.pos as int)
    }

    /// The cursor never passes the end of the token sequence.
    pub closed spec fn inv(self) -> bool {
        self.pos <= self.tokens@.len()
    }

    /// The parser state the parse functions rely on: tokens left to read,
    /// the last of them the end-of-input token.
    pub closed spec fn wf(self) -> bool {
        self.inv() && self.remaining().len() >= 1 && self.remaining().last() == LexTok::Eof
    }

    /// Create a parser over a token sequence, its cursor at the start.
    pub fn new(tokens: Vec<Token>) -> (r: Self)
        ensures
            r.inv(),
            r.remaining() == tokens@.map_values(|t: Token| t@),
            r.wf() <==> (tokens@.len() >= 1 && tokens@.map_values(|t: Token| t@).last()
                == LexTok::Eof),
    {
        let r = QueryParser { tokens, pos: 0 };
        proof {
            assert(r.remaining() =~= r.tokens@.map_values(|t: Token| t@));
        }
        r
    }

    /// Whether any token is left to read.
    fn has_tokens(&self) -> (r: bool)
        requires
            self.inv(),
        ensures
            r == (self.remaining().len() >= 1),
    {
        self.pos < self.tokens.len()
    }

    /// Read the current token without consuming it.
    fn curr(&self) -> (r: &Token)
        requires
            self.inv(),
            self.remaining().len() >= 1,
        ensures
            r@ == self.remaining()[0],
    {
        &self.tokens[self.pos]
    }

    /// Whether the parser stands before the end-of-input token.
    fn not_eof(&self) -> (r: bool)
        requires
            self.inv(),
            self.remaining().len() >= 1,
        ensures
            r == (self.remaining()[0] != LexTok::Eof),
    {
        !matches!(self.curr(), Token::Eof)
    }

    /// Consume and return the current token.
    fn next(&mut self) -> (r: Token)
        requires
            old(self).inv(),
            old(self).remaining().len() >= 1,
        ensures
            final(self).inv(),
            r@ == old(self).remaining()[0],
            final(self).remaining() == old(self).remaining().skip(1),
    {
        let n = self.tokens.len();
        let t = clone_token(&self.tokens[self.pos]);
        self.pos = self.pos + 1;
        proof {
            assert(final(self).remaining() =~= old(self).remaining().skip(1));
        }
        t
    }

    /// Consume the current token when it equals `what`; report the expected
    /// and found tokens otherwise.
    fn expect_token(&mut self, what: Token) -> (r: Result<Token, ParseErr>)
        requires
            old(self).inv(),
        ensures
            final(self).inv(),
            old(self).remaining().len() == 0 ==> (r matches Err(pe) && pe@ == ErrNode::ExpectToken(
                what@,
                LexTok::Eof,
            ) && *final(self) == *old(self)),
            old(self).remaining().len() >= 1 && old(self).remaining()[0] == what@ ==> (r is Ok
                && final(self).remaining() == old(self).remaining().skip(1)),
            old(self).remaining().len() >= 1 && old(self).remaining()[0] != what@ ==> (r matches
                Err(pe) && pe@ == ErrNode::ExpectToken(what@, old(self).remaining()[0])
                && final(self).remaining() == old(self).remaining().skip(1)),
    {
        if !self.has_tokens() {
            return Err(ParseErr::ExpectToken(what, Token::Eof));
        }
        let nt = self.next();
        if nt.eq(&what) {
            Ok(nt)
        } else {
            Err(ParseErr::ExpectToken(what, nt))
        }
    }
}


impl QueryParser {
    /// Parse a string-valued keyword, exactly as [`sp_parse_str_kw`] states.
    fn parse_str_keyword(&mut self) -> (r: Result<Keyword, ParseErr>)
        requires
            old(self).wf(),
            is_str_field(old(self).remaining()[0]),
        ensures
            final(self).inv(),
            final(self).remaining() == sp_parse_str_kw(old(self).remaining()).1,
            final(self).remaining().len() <= old(self).remaining().len(),
            match sp_parse_str_kw(old(self).remaining()).0 {
                Result::Ok(kw) => r matches Ok(k) && k@ == kw && final(self).wf()
                    && final(self).remaining().len() < old(self).remaining().len(),
                Result::Err(e) => r matches Err(pe) && pe@ == e,
            },
    {
        let ghost ts = self.remaining();
        let keyword = self.next();
        match self.expect_token(Token::Colon) {
            Err(e) => {
                return Err(e);
            },
            Ok(_) => {},
        }
        if !self.has_tokens() {
            let expects = vec![Token::Num(0), Token::Str(String::new())];
            proof {
                assert(expects@.map_values(|t: Token| t@) =~= seq![
                    LexTok::Num(0),
                    LexTok::Str(Seq::empty()),
                ]);
            }
            return Err(ParseErr::ExpectTokens(expects, Token::Eof));
        }
        proof {
            assert(self.remaining() =~= ts.skip(2));
            assert(ts.skip(2)[0] == ts[2]);
            assert(ts.skip(2).skip(1) =~= ts.skip(3));
        }
        let vt = self.next();
        let val: String = match vt {
            Token::Num(num) => int_to_string(num),
            Token::Str(st) => st,
            tk => {
                let expects = vec![Token::Num(0), Token::Str(String::new())];
                proof {
                    assert(expects@.map_values(|t: Token| t@) =~= seq![
                        LexTok::Num(0),
                        LexTok::Str(Seq::empty()),
                    ]);
                }
                return Err(ParseErr::ExpectTokens(expects, tk));
            },
        };
        proof {
            assert(ts.last() == LexTok::Eof);
            assert(ts[0] != LexTok::Eof && ts[1] != LexTok::Eof && ts[2] != LexTok::Eof);
            assert(ts.len() >= 4);
            assert(ts.skip(3).last() == ts.last());
        }
        Ok(
            match keyword {
                Token::Name => Keyword::Name(val),
                Token::Desc => Keyword::Desc(val),
                Token::Rarity => Keyword::Rarity(val),
                Token::Temple => Keyword::Temple(val),
                Token::Tribe => Keyword::Tribe(val),
                Token::Sigil => Keyword::Sigil(val),
                Token::SpAtk => Keyword::SpAtk(val),
                Token::Costs => Keyword::Costs(val),
                Token::CostType => Keyword::CostType(val),
                _ => Keyword::Trait(val),
            },
        )
    }

    /// Parse a comparison keyword, exactly as [`sp_parse_cmp_kw`] states.
    fn parse_cmp_keyword(&mut self) -> (r: Result<Keyword, ParseErr>)
        requires
            old(self).wf(),
            is_cmp_field(old(self).remaining()[0]),
        ensures
            final(self).inv(),
            final(self).remaining() == sp_parse_cmp_kw(old(self).remaining()).1,
            final(self).remaining().len() <= old(self).remaining().len(),
            match sp_parse_cmp_kw(old(self).remaining()).0 {
                Result::Ok(kw) => r matches Ok(k) && k@ == kw && final(self).wf()
                    && final(self).remaining().len() < old(self).remaining().len(),
                Result::Err(e) => r matches Err(pe) && pe@ == e,
            },
    {
        let ghost ts = self.remaining();
        let keyword = self.next();
        proof {
            assert(ts.len() >= 2);
            assert(ts.skip(1)[0] == ts[1]);
            assert(ts.skip(1).skip(1) =~= ts.skip(2));
        }
        let ct = self.next();
        let cmp = match ct {
            Token::Colon => QueryOrder::Equal,
            Token::Equal => QueryOrder::Equal,
            Token::Greater => QueryOrder::Greater,
            Token::GreaterEq => QueryOrder::GreaterEqual,
            Token::Less => QueryOrder::Less,
            Token::LessEq => QueryOrder::LessEqual,
            tk => {
                let expects = vec![
                    Token::Colon,
                    Token::Equal,
                    Token::Greater,
                    Token::GreaterEq,
                    Token::Less,
                    Token::LessEq,
                ];
                proof {
                    assert(expects@.map_values(|t: Token| t@) =~= cmp_expected());
                }
                return Err(ParseErr::ExpectTokens(expects, tk));
            },
        };
        proof {
            assert(ts[0] != LexTok::Eof && ts[1] != LexTok::Eof);
            assert(ts.len() >= 3);
            assert(ts.skip(2)[0] == ts[2]);
            assert(ts.skip(2).skip(1) =~= ts.skip(3));
        }
        let nt = self.next();
        let num = match nt {
            Token::Num(num) => num,
            tk => {
                return Err(ParseErr::ExpectToken(Token::Num(0), tk));
            },
        };
        proof {
            assert(ts[2] != LexTok::Eof);
            assert(ts.len() >= 4);
            assert(ts.skip(3).last() == ts.last());
        }
        Ok(
            match keyword {
                Token::Attack => Keyword::Attack(cmp, num),
                _ => Keyword::Health(cmp, num),
            },
        )
    }

    /// Parse one keyword, exactly as [`sp_parse_keyword`] states.
    fn parse_keyword(&mut self) -> (r: Result<Keyword, ParseErr>)
        requires
            old(self).wf(),
        ensures
            final(self).inv(),
            final(self).remaining() == sp_parse_keyword(old(self).remaining()).1,
            final(self).remaining().len() <= old(self).remaining().len(),
            match sp_parse_keyword(old(self).remaining()).0 {
                Result::Ok(kw) => r matches Ok(k) && k@ == kw && final(self).wf()
                    && final(self).remaining().len() < old(self).remaining().len(),
                Result::Err(e) => r matches Err(pe) && pe@ == e,
            },
        decreases self.remaining().len(), 0int,
    {
        let ghost ts = self.remaining();
        match self.curr() {
            Token::Name | Token::Desc | Token::Rarity | Token::Temple | Token::Tribe
                | Token::Sigil | Token::SpAtk | Token::Costs | Token::CostType | Token::Trait => {
                self.parse_str_keyword()
            },
            Token::Attack | Token::Health => self.parse_cmp_keyword(),
            Token::OpenParen => {
                self.next();
                proof {
                    assert(ts.skip(1).last() == ts.last());
                    assert(ts.skip(1).len() >= 1) by {
                        assert(ts[0] != LexTok::Eof);
                    }
                }
                let t = self.parse();
                match self.expect_token(Token::CloseParen) {
                    Err(e) => Err(e),
                    Ok(_) => {
                        proof {
                            let rest = sp_parse_or(ts.skip(1)).1;
                            if sp_parse_or(ts.skip(1)).0 is Ok {
                                assert(rest[0] == LexTok::CloseParen);
                                assert(rest[0] != LexTok::Eof);
                                assert(rest.skip(1).last() == rest.last());
                            }
                        }
                        t
                    },
                }
            },
            _ => {
                proof {
                    assert(!is_str_field(ts[0]) && !is_cmp_field(ts[0]) && ts[0]
                        != LexTok::OpenParen);
                }
                Err(ParseErr::InvalidKeyword(self.next()))
            },
        }
    }

    /// Parse a possibly negated keyword, exactly as [`sp_parse_not`] states.
    fn parse_not(&mut self) -> (r: Result<Keyword, ParseErr>)
        requires
            old(self).wf(),
        ensures
            final(self).inv(),
            final(self).remaining() == sp_parse_not(old(self).remaining()).1,
            final(self).remaining().len() <= old(self).remaining().len(),
            match sp_parse_not(old(self).remaining()).0 {
                Result::Ok(kw) => r matches Ok(k) && k@ == kw && final(self).wf()
                    && final(self).remaining().len() < old(self).remaining().len(),
                Result::Err(e) => r matches Err(pe) && pe@ == e,
            },
        decreases self.remaining().len(), 1int,
    {
        let ghost ts = self.remaining();
        if !matches!(self.curr(), Token::Not) {
            return self.parse_keyword();
        }
        self.next();
        proof {
            assert(ts[0] != LexTok::Eof);
            assert(ts.skip(1).last() == ts.last());
            assert(ts.skip(1).len() >= 1);
        }
        match self.parse_keyword() {
            Ok(kw) => Ok(Keyword::Not(Box::new(kw))),
            Err(e) => Err(e),
        }
    }

    /// Parse one expression, exactly as [`sp_parse_or`] states.
    #[verifier::loop_isolation(false)]
    fn parse_or(&mut self) -> (r: Result<Keyword, ParseErr>)
        requires
            old(self).wf(),
        ensures
            final(self).inv(),
            final(self).remaining() == sp_parse_or(old(self).remaining()).1,
            final(self).remaining().len() <= old(self).remaining().len(),
            match sp_parse_or(old(self).remaining()).0 {
                Result::Ok(kw) => r matches Ok(k) && k@ == kw && final(self).wf()
                    && final(self).remaining().len() < old(self).remaining().len(),
                Result::Err(e) => r matches Err(pe) && pe@ == e,
            },
        decreases self.remaining().len(), 2int,
    {
        let ghost ts = self.remaining();
        let mut left = match self.parse_not() {
            Err(e) => {
                return Err(e);
            },
            Ok(kw) => kw,
        };
        let ghost goal = sp_or_chain(left@, self.remaining());
        proof {
            assert(sp_parse_or(ts) == goal);
        }
        while self.has_tokens() && matches!(self.curr(), Token::Or)
            invariant
                self.wf(),
                self.remaining().len() < ts.len(),
                goal == sp_or_chain(left@, self.remaining()),
                goal == sp_parse_or(ts),
            decreases self.remaining().len(),
        {
            let ghost pre = self.remaining();
            proof {
                assert(pre.len() >= 1);
                assert(pre[0] == LexTok::Or);
            }
            self.next();
            proof {
                assert(pre[0] != LexTok::Eof);
                assert(pre.skip(1).last() == pre.last());
                assert(pre.skip(1).len() >= 1);
            }
            proof {
                assert(self.remaining().len() < ts.len());
            }
            let right = match self.parse_not() {
                Err(e) => {
                    proof {
                        assert(sp_or_chain(left@, pre) == (sp_parse_not(pre.skip(1)).0,
                            sp_parse_not(pre.skip(1)).1));
                    }
                    return Err(e);
                },
                Ok(kw) => kw,
            };
            left = Keyword::Or(Box::new(left), Box::new(right));
        }
        proof {
            assert(sp_or_chain(left@, self.remaining()) == (Result::<KwNode, ErrNode>::Ok(left@),
                self.remaining()));
        }
        Ok(left)
    }

    /// Parse one expression.
    fn parse(&mut self) -> (r: Result<Keyword, ParseErr>)
        requires
            old(self).wf(),
        ensures
            final(self).inv(),
            final(self).remaining() == sp_parse_or(old(self).remaining()).1,
            final(self).remaining().len() <= old(self).remaining().len(),
            match sp_parse_or(old(self).remaining()).0 {
                Result::Ok(kw) => r matches Ok(k) && k@ == kw && final(self).wf()
                    && final(self).remaining().len() < old(self).remaining().len(),
                Result::Err(e) => r matches Err(pe) && pe@ == e,
            },
        decreases self.remaining().len(), 3int,
    {
        self.parse_or()
    }

    /// Parse the whole token stream into a list of keyword nodes, exactly as
    /// [`sp_program`] states.
    #[verifier::loop_isolation(false)]
    pub fn gen_ast(self) -> (r: Result<Vec<Keyword>, ParseErr>)
        requires
            self.wf(),
        ensures
            match sp_program(self.remaining()) {
                Result::Ok(kws) => r matches Ok(v) && v@.map_values(|k: Keyword| k@) == kws,
                Result::Err(e) => r matches Err(pe) && pe@ == e,
            },
    {
        let ghost ts0 = self.remaining();
        let mut p = self;
        let mut ast: Vec<Keyword> = Vec::new();
        proof {
            assert(ast@.map_values(|k: Keyword| k@) =~= Seq::<KwNode>::empty());
        }
        while p.has_tokens() && p.not_eof()
            invariant
                p.wf(),
                sp_program(ts0) == (match sp_program(p.remaining()) {
                    Result::Ok(kws) => Result::<Seq<KwNode>, ErrNode>::Ok(
                        ast@.map_values(|k: Keyword| k@) + kws,
                    ),
                    Result::Err(e) => Result::<Seq<KwNode>, ErrNode>::Err(e),
                }),
            decreases p.remaining().len(),
        {
            let ghost pre = p.remaining();
            let ghost pre_ast = ast@;
            proof {
                assert(pre.len() >= 1 && pre[0] != LexTok::Eof);
            }
            let kw = match p.parse() {
                Err(e) => {
                    proof {
                        assert(sp_program(pre) == Result::<Seq<KwNode>, ErrNode>::Err(e@));
                    }
                    return Err(e);
                },
                Ok(kw) => kw,
            };
            ast.push(kw);
            proof {
                assert(ast@.map_values(|k: Keyword| k@) =~= pre_ast.map_values(|k: Keyword| k@)
                    + seq![kw@]);
                if sp_program(p.remaining()) is Ok {
                    let rest_kws = sp_program(p.remaining())->Ok_0;
                    assert(pre_ast.map_values(|k: Keyword| k@) + (seq![kw@] + rest_kws)
                        =~= pre_ast.map_values(|k: Keyword| k@) + seq![kw@] + rest_kws);
                }
            }
        }
        proof {
            assert(ast@.map_values(|k: Keyword| k@) + Seq::<KwNode>::empty() =~= ast@.map_values(
                |k: Keyword| k@,
            ));
        }
        Ok(ast)
    }

    /// Create a parser over a token sequence and parse the whole stream.
    pub fn gen_ast_with(tokens: Vec<Token>) -> (r: Result<Vec<Keyword>, ParseErr>)
        requires
            tokens@.len() >= 1,
            tokens@[tokens@.len() - 1]@ == LexTok::Eof,
        ensures
            match sp_program(tokens@.map_values(|t: Token| t@)) {
                Result::Ok(kws) => r matches Ok(v) && v@.map_values(|k: Keyword| k@) == kws,
                Result::Err(e) => r matches Err(pe) && pe@ == e,
            },
    {
        proof {
            let m = tokens@.map_values(|t: Token| t@);
            assert(m.last() == tokens@[tokens@.len() - 1]@);
        }
        QueryParser::new(tokens).gen_ast()
    }
}

} // verus!
