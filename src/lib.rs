//! A small term-rewriting engine: expressions, structural matching,
//! substitution, single-step rule application and a tokenizer for the
//! rule language.
pub mod expr;
pub mod bindings;
pub mod matcher;
pub mod subst;
pub mod rule;
pub mod lexer;
pub mod laws;
