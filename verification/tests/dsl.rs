use magpie::cards::{Costs, Mox, MoxCount, Rarity, SpAtk, Temple, Traits, TraitsFlag, MOX_G, MOX_O,
    TEMPLE_MAGICK, TRAIT_HARD};
use magpie::engine::{apply_cost_from, compile_query, keyword_to_filter, CostType, FilterExt,
    MagpieCosts, QueryError, COST_BLOOD, COST_MOX};
use magpie::lexer::{tokenize_query, Token};
use magpie::parser::{Keyword, ParseErr, QueryParser};
use magpie::query::{Filters, QueryOrder};

type F = Filters<MagpieCosts, FilterExt>;

fn free_costs() -> Costs<MagpieCosts> {
    Costs {
        blood: 0,
        bone: 0,
        energy: 0,
        mox: Mox(0),
        mox_count: None,
        extra: MagpieCosts { shattered_count: None, max: 0, link: 0, gold: 0 },
    }
}

#[test]
fn lex_comparison_query() {
    let tokens = tokenize_query("attack>3").unwrap();
    assert_eq!(tokens, vec![Token::Attack, Token::Greater, Token::Num(3), Token::Eof]);
}

#[test]
fn lex_field_and_word() {
    let tokens = tokenize_query("rarity:rare").unwrap();
    assert_eq!(
        tokens,
        vec![Token::Rarity, Token::Colon, Token::Str("rare".to_string()), Token::Eof]
    );
}

#[test]
fn lex_aliases_numbers_and_negation() {
    let tokens = tokenize_query("!tr:hard or h<=-2").unwrap();
    assert_eq!(
        tokens,
        vec![
            Token::Not,
            Token::Trait,
            Token::Colon,
            Token::Str("hard".to_string()),
            Token::Or,
            Token::Health,
            Token::LessEq,
            Token::Num(-2),
            Token::Eof,
        ]
    );
}

#[test]
fn lex_quoted_string_keeps_spaces() {
    let tokens = tokenize_query("name:\"mole man\"").unwrap();
    assert_eq!(
        tokens,
        vec![Token::Name, Token::Colon, Token::Str("mole man".to_string()), Token::Eof]
    );
}

#[test]
fn lex_symbol_runs_decompose_one_symbol_at_a_time() {
    // A compound inside a longer run is not recognized as a compound.
    let tokens = tokenize_query("(<=").unwrap();
    assert_eq!(tokens, vec![Token::OpenParen, Token::Less, Token::Equal, Token::Eof]);
}

#[test]
fn lex_huge_number_stays_text() {
    let tokens = tokenize_query("99999999999999999999999999").unwrap();
    assert_eq!(
        tokens,
        vec![Token::Str("99999999999999999999999999".to_string()), Token::Eof]
    );
}

#[test]
fn lex_accepts_accented_bare_words() {
    let tokens = tokenize_query("n:h\u{e9}ron").unwrap();
    assert_eq!(
        tokens,
        vec![Token::Name, Token::Colon, Token::Str("h\u{e9}ron".to_string()), Token::Eof]
    );
}

#[test]
fn lex_rejects_unknown_symbol() {
    let err = tokenize_query("a:1 ^").unwrap_err();
    assert_eq!(err, "^");
}

#[test]
fn lex_rejects_lone_quote() {
    let err = tokenize_query("\"oops").unwrap_err();
    assert_eq!(err, "\"");
}

#[test]
fn parse_comparison_keyword() {
    let tokens = tokenize_query("attack>3").unwrap();
    let ast = QueryParser::gen_ast_with(tokens).unwrap();
    assert_eq!(ast.len(), 1);
    assert!(matches!(ast[0], Keyword::Attack(QueryOrder::Greater, 3)));
}

#[test]
fn parse_not_and_or() {
    let tokens = tokenize_query("!trait:hard or n:wolf").unwrap();
    let ast = QueryParser::gen_ast_with(tokens).unwrap();
    assert_eq!(ast.len(), 1);
    match &ast[0] {
        Keyword::Or(a, b) => {
            match a.as_ref() {
                Keyword::Not(inner) => match inner.as_ref() {
                    Keyword::Trait(s) => assert_eq!(s.as_str(), "hard"),
                    other => panic!("unexpected: {other:?}"),
                },
                other => panic!("unexpected: {other:?}"),
            }
            match b.as_ref() {
                Keyword::Name(s) => assert_eq!(s.as_str(), "wolf"),
                other => panic!("unexpected: {other:?}"),
            }
        }
        other => panic!("unexpected: {other:?}"),
    }
}

#[test]
fn parse_or_chain_folds_left() {
    let tokens = tokenize_query("n:wolf or n:bear or n:crow").unwrap();
    let ast = QueryParser::gen_ast_with(tokens).unwrap();
    assert_eq!(ast.len(), 1);
    match &ast[0] {
        Keyword::Or(left, right) => {
            assert!(matches!(left.as_ref(), Keyword::Or(_, _)));
            assert!(matches!(right.as_ref(), Keyword::Name(_)));
        }
        other => panic!("unexpected: {other:?}"),
    }
}

#[test]
fn parse_number_literal_for_string_field_becomes_text() {
    let tokens = tokenize_query("name:3").unwrap();
    let ast = QueryParser::gen_ast_with(tokens).unwrap();
    match &ast[0] {
        Keyword::Name(s) => assert_eq!(s.as_str(), "3"),
        other => panic!("unexpected: {other:?}"),
    }
}

#[test]
fn parse_rejects_missing_colon() {
    let tokens = tokenize_query("name wolf").unwrap();
    let err = QueryParser::gen_ast_with(tokens).unwrap_err();
    assert!(matches!(err, ParseErr::ExpectToken(Token::Colon, Token::Str(_))));
}

#[test]
fn parse_rejects_unbalanced_parenthesis() {
    let tokens = tokenize_query("(a:1").unwrap();
    let err = QueryParser::gen_ast_with(tokens).unwrap_err();
    assert!(matches!(err, ParseErr::ExpectToken(Token::CloseParen, Token::Eof)));
}

#[test]
fn parse_rejects_doubly_unbalanced_parentheses() {
    let tokens = tokenize_query("((a:1").unwrap();
    assert!(QueryParser::gen_ast_with(tokens).is_err());
}

#[test]
fn compile_attack_comparison() {
    let filters = compile_query("attack>3").unwrap();
    assert_eq!(filters, vec![F::Attack(QueryOrder::Greater, 3)]);
}

#[test]
fn compile_rarity_and_temple_codes() {
    let filters = compile_query("rarity:rare tp:m").unwrap();
    assert_eq!(
        filters,
        vec![F::Rarity(Rarity::RARE), F::Temple(Temple(TEMPLE_MAGICK))]
    );
}

#[test]
fn compile_spatk_words() {
    let filters = compile_query("sp:mirror").unwrap();
    assert_eq!(filters, vec![F::SpAtk(SpAtk::MIRROR)]);
}

#[test]
fn compile_negated_trait() {
    let filters = compile_query("!trait:hard").unwrap();
    assert_eq!(
        filters,
        vec![F::Not(Box::new(F::Traits(Some(Traits {
            strings: None,
            flags: TraitsFlag(TRAIT_HARD),
        }))))]
    );
}

#[test]
fn compile_trait_words_split_on_commas() {
    let filters = compile_query("trait:\"ancient,stone\"").unwrap();
    assert_eq!(
        filters,
        vec![F::Traits(Some(Traits {
            strings: Some(vec!["ancient".to_string(), "stone".to_string()]),
            flags: TraitsFlag(0),
        }))]
    );
}

#[test]
fn compile_cost_shorthand_raises_mox_flags() {
    let filters = compile_query("c:3r2g").unwrap();
    match &filters[0] {
        F::Costs(Some(c)) => {
            assert_eq!(c.mox.0, MOX_O | MOX_G);
            assert_eq!(c.mox_count, None);
            assert_eq!(c.blood, 0);
        }
        other => panic!("unexpected: {other:?}"),
    }
}

#[test]
fn cost_shorthand_counts_fill_a_populated_count() {
    let mut start = free_costs();
    start.mox_count = Some(MoxCount::new());
    let chars: Vec<char> = "3r2g".chars().collect();
    let out = apply_cost_from(start, &chars, 0).unwrap();
    assert_eq!(out.mox.0, MOX_O | MOX_G);
    let counts = out.mox_count.unwrap();
    assert_eq!(counts.r, 3);
    assert_eq!(counts.g, 2);
    assert_eq!(counts.b, 0);
}

#[test]
fn cost_shorthand_reads_blood_bone_energy() {
    let chars: Vec<char> = "2b1o4e".chars().collect();
    let out = apply_cost_from(free_costs(), &chars, 0).unwrap();
    assert_eq!(out.blood, 2);
    assert_eq!(out.bone, 1);
    assert_eq!(out.energy, 4);
    assert_eq!(out.mox.0, 0);
}

#[test]
fn cost_shorthand_defaults_missing_count_to_one() {
    let chars: Vec<char> = "b".chars().collect();
    let out = apply_cost_from(free_costs(), &chars, 0).unwrap();
    assert_eq!(out.blood, 1);
}

#[test]
fn compile_cost_type_letters() {
    let filters = compile_query("ct:bm").unwrap();
    assert_eq!(
        filters,
        vec![F::Extra(FilterExt::CostType(CostType(COST_BLOOD | COST_MOX)))]
    );
}

#[test]
fn compile_rejects_unknown_literals() {
    match compile_query("rarity:zzz").unwrap_err() {
        QueryError::Semantic(e) => assert_eq!(e, "InvalidRarity"),
        other => panic!("unexpected: {other:?}"),
    }
    match compile_query("c:9q").unwrap_err() {
        QueryError::Semantic(e) => assert_eq!(e, "Invalid Cost"),
        other => panic!("unexpected: {other:?}"),
    }
    match compile_query("ct:z").unwrap_err() {
        QueryError::Semantic(e) => assert_eq!(e, "Invalid Cost Type"),
        other => panic!("unexpected: {other:?}"),
    }
}

#[test]
fn compile_rejects_unknown_field_position() {
    match compile_query("banana:3").unwrap_err() {
        QueryError::Syntactic(ParseErr::InvalidKeyword(Token::Str(s))) => assert_eq!(s, "banana"),
        other => panic!("unexpected: {other:?}"),
    }
}

#[test]
fn compile_reports_lexical_errors() {
    match compile_query("a>3 @").unwrap_err() {
        QueryError::Lexical(s) => assert_eq!(s, "@"),
        other => panic!("unexpected: {other:?}"),
    }
}

#[test]
fn keyword_compiles_directly() {
    let f = keyword_to_filter(Keyword::Rarity("c".to_string())).unwrap();
    assert_eq!(f, F::Rarity(Rarity::COMMON));
    let e = keyword_to_filter(Keyword::Temple("nowhere".to_string())).unwrap_err();
    assert_eq!(e, "InvalidTemple");
}

#[test]
fn empty_query_compiles_to_no_filters() {
    let filters = compile_query("").unwrap();
    assert!(filters.is_empty());
    let filters = compile_query("   ").unwrap();
    assert!(filters.is_empty());
}

#[test]
fn quoted_run_is_greedy_to_the_last_quote() {
    // The quoted-string rule takes everything up to the last quote of the
    // remaining input as one literal.
    let tokens = tokenize_query("n:\"a\" b \"c\"").unwrap();
    assert_eq!(
        tokens,
        vec![Token::Name, Token::Colon, Token::Str("a\" b \"c".to_string()), Token::Eof]
    );
}

#[test]
fn parse_reports_expected_literal_tokens() {
    let tokens = tokenize_query("name:(").unwrap();
    let err = QueryParser::gen_ast_with(tokens).unwrap_err();
    match err {
        ParseErr::ExpectTokens(expects, found) => {
            assert_eq!(expects, vec![Token::Num(0), Token::Str(String::new())]);
            assert_eq!(found, Token::OpenParen);
        }
        other => panic!("unexpected: {other:?}"),
    }
}

#[test]
fn parse_reports_expected_comparators() {
    let tokens = tokenize_query("attack wolf").unwrap();
    let err = QueryParser::gen_ast_with(tokens).unwrap_err();
    match err {
        ParseErr::ExpectTokens(expects, found) => {
            assert_eq!(expects.len(), 6);
            assert_eq!(expects[0], Token::Colon);
            assert_eq!(found, Token::Str("wolf".to_string()));
        }
        other => panic!("unexpected: {other:?}"),
    }
}

#[test]
fn colon_and_equals_both_mean_equality_for_numeric_fields() {
    let with_colon = compile_query("health:3").unwrap();
    let with_equal = compile_query("health=3").unwrap();
    assert_eq!(with_colon, vec![F::Health(QueryOrder::Equal, 3)]);
    assert_eq!(with_colon, with_equal);
}

#[test]
fn negative_counts_reach_blood_costs() {
    let chars: Vec<char> = "-3b".chars().collect();
    let out = apply_cost_from(free_costs(), &chars, 0).unwrap();
    assert_eq!(out.blood, -3);
}

#[test]
fn cost_scan_passes_over_unmatched_text() {
    // A digit run without a letter after it is no pair and is passed over.
    let chars: Vec<char> = "12 3r".chars().collect();
    let out = apply_cost_from(free_costs(), &chars, 0).unwrap();
    assert_eq!(out.mox.0, MOX_O);
    assert_eq!(out.blood, 0);
}
