//! A SQL front end for the `FROM` clause: a tokenizer driven by a dialect's
//! character rules, and a recursive-descent parser of table references and
//! joins that resolves parentheses and aliases.
//!
//! Parentheses around a single relation carry no meaning and are dropped;
//! parentheses around a join tree are kept as a nested join, which takes no
//! alias. An alias binds to a relation once: a second one is an error that
//! names the first.

pub mod ast;
pub mod dialect;
pub mod parser;
pub mod text;
pub mod tokenizer;
