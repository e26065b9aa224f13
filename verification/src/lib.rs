//! A zero-copy toolkit for hand-written recursive-descent parsers: a cursor
//! over a borrowed element sequence, matching and alternation primitives,
//! non-consuming lookahead, bracket/quote-aware boundary search, and a
//! separated-list rule.

pub mod acceptor;
pub mod bytes;
pub mod errors;
pub mod matcher;
pub mod peek;
pub mod peeker;
pub mod recognizer;
pub mod scanner;
pub mod separated_list;
pub mod visitor;
