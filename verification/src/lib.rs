//! Item-level grammar of a recursive-descent parser for a curly-brace
//! language: the dispatcher that routes module items (`struct`, `fn`, `mod`,
//! `use`, `extern crate`) on one token of lookahead, drives each production to
//! completion or to a recovery point, and records the parse as a balanced
//! sequence of tree-construction events.

pub mod event;
pub mod grammar;
pub mod laws;
pub mod parser;
pub mod token;
