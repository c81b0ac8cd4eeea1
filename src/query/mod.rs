//! The selector grammar: its rules, the parser, and parse errors.
pub mod error;
pub mod parser;
pub mod rules;
pub mod selector;
