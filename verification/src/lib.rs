//! Front end of a compiler for a small statically typed imperative language:
//! a lexer, a scoped symbol table, an operator-precedence expression parser and
//! a recursive-descent statement parser with diagnostic recovery.
//!
//! [`parser::parse_root`] takes a source text and gives the program tree and
//! the diagnostics. Every executable function carries a contract stated over
//! the views of the data types. What the parser computes is defined by the
//! spec functions of [`parser::grammar`]; what holds of every parse is proved
//! in [`parser::laws`] and in the modules it draws on.

pub mod data;
pub mod ast;
pub mod parser;
