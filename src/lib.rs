//! Composable parser combinators over character strings, with a small
//! grammar of state blocks built from them.
//!
//! Every parser has a mathematical meaning, its `model`: the outcome it
//! gives on each input. Each combinator and primitive states the model of
//! what it builds or the outcome of what it parses.
pub mod output;
pub mod combinators;
pub mod primitives;
pub mod grammar;

pub use output::ParserOutput;
pub use combinators::{Parser, at_least_one, get_all};
pub use primitives::{
    clear_white_space, is_alphabetic, is_numeric, item, keyword, special_char, white_space, word,
};
pub use grammar::{Action, State, action, do_action, entry_action, exit_action, keyword_action, state};
