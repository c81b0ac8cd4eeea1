//! A query engine for Markdown documents: a compact selector language, its
//! parser and diagnostics, the matching engine, and the state behind an
//! interactive shell.
pub mod md_elem;
pub mod query;
pub mod repl;
pub mod run;
pub mod select;
pub mod text;
