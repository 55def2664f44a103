//! The program tree: literals, expressions, statements and the root.

pub mod expression;
pub mod literal;
pub mod properties;
pub mod root;
pub mod statement;
