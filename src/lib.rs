//! Validation of a minimal JSON object syntax: a brace-delimited object
//! whose keys and values are string literals.
//!
//! A character-level tokenizer turns the text into tokens one at a time, and
//! a state machine checks the token stream against the object grammar.

pub mod json_object;
pub mod json_parser;
pub mod json_tokenizer;
