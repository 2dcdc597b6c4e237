//! Parsing of chess game records written in Portable Game Notation.
//!
//! A text is matched against the grammar in [`grammar`], which yields a parse
//! tree; [`extract`] turns the tree into a [`ParsedGame`]: its tag lines, its
//! move pairs with their comments, and its result. [`ParsedGame::to_string`]
//! renders a game as a plain report.

pub mod cli;
pub mod extract;
pub mod grammar;
pub mod lexer;
pub mod model;
pub mod parser;
pub mod rules;
pub mod text;
pub mod theorems;

pub use cli::{Cli, Commands};
pub use extract::{extract_game, extract_pair, extract_pairs, parse_pgn};
pub use grammar::{GameTree, Item, MovePairNode, Rule, Span, SyntaxError, TagNode};
pub use model::{Move, ParsedGame};
pub use parser::parse_game;
pub use rules::{PGNParser, Pair};
