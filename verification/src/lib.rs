//! A verified query engine for trading-card records.
//!
//! The crate models card-game sets as plain records, offers a filter algebra
//! over them, a small textual query language (lexer, recursive-descent parser
//! and a semantic pass from parsed keywords to filters), and a fuzzy name
//! matcher based on normalized edit distance.

pub mod cards;
pub mod engine;
pub mod fuzzy;
pub mod imf;
pub mod lexer;
pub mod parser;
pub mod query;
pub mod text;

pub use cards::{Attack, Card, CardSet, CostExtra, Costs, Mox, MoxCount, Rarity, SetCode, SpAtk,
    Temple, Traits, TraitsFlag, UpgradeCard};
pub use engine::{compile_query, keyword_to_filter, CostType, FilterExt, MagpieCosts, MagpieExt,
    QueryError};
pub use fuzzy::{fuzzy_best, lev, FuzzyRes, Similarity};
pub use lexer::{tokenize_query, Token};
pub use parser::{Keyword, ParseErr, QueryParser};
pub use query::{eval_filter, Filters, Query, QueryBuilder, QueryOrder, ToFilter};
