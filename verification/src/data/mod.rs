//! Plain data shared by the tokens, the tree and the symbol table.

pub mod ops;
pub mod syms;
pub mod text;
pub mod vtype;
