//! A verified front end for a small SQL-like statement language.
//!
//! Raw text is split into per-statement spans, decoded into positioned
//! atoms, tokenized by a longest-match lexer, and parsed by a
//! recursive-descent, precedence-climbing parser into a `Statement`
//! syntax tree.  Every stage carries a mathematical model: the lexer is
//! proved equal to `spec_lex_step`/`spec_tokens`, and each parsing
//! routine is proved equal to its `sp_*` twin over the token sequence.

pub mod position;
pub mod token;
pub mod ast;
pub mod lexer;
pub mod layer;
pub mod parser;
pub mod source;
pub mod laws;
