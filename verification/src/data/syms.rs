//! Punctuation symbols.

use vstd::prelude::*;

verus! {

/// The punctuation of the language.
#[derive(Clone, Copy, Debug, PartialEq, Eq, Structural)]
pub enum Symbol {
    Bang,
    Equal,
    Comma,
    Semicolon,
    LeftParen,
    RightParen,
    LeftBrace,
    RightBrace,
}

/// The name under which a symbol appears in diagnostics.
pub open spec fn symbol_name(sym: Symbol) -> Seq<char> {
    match sym {
        Symbol::Bang => "Bang"@,
        Symbol::Equal => "Equal"@,
        Symbol::Comma => "Comma"@,
        Symbol::Semicolon => "Semicolon"@,
        Symbol::LeftParen => "LeftParen"@,
        Symbol::RightParen => "RightParen"@,
        Symbol::LeftBrace => "LeftBrace"@,
        Symbol::RightBrace => "RightBrace"@,
    }
}

impl Symbol {
    /// The name under which the symbol appears in diagnostics.
    pub fn name(&self) -> (r: &'static str)
        ensures
            r@ == symbol_name(*self),
    {
        match self {
            Symbol::Bang => "Bang",
            Symbol::Equal => "Equal",
            Symbol::Comma => "Comma",
            Symbol::Semicolon => "Semicolon",
            Symbol::LeftParen => "LeftParen",
            Symbol::RightParen => "RightParen",
            Symbol::LeftBrace => "LeftBrace",
            Symbol::RightBrace => "RightBrace",
        }
    }
}

} // verus!
