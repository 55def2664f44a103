//! Tokens: a span and a payload.

use vstd::prelude::*;
use std::collections::VecDeque;
use crate::data::ops::ArithmeticOperation;
use crate::data::ops::BooleanOperation;
use crate::data::ops::ComparisonOperation;
use crate::data::syms::Symbol;
use crate::data::vtype::VType;

verus! {

/// Where a token stands in the source: its line and its first and last column,
/// all counted from 1.
#[derive(Clone, Copy, Debug, PartialEq, Eq, Structural)]
pub struct TokenInfo {
    pub line: usize,
    pub column_begin: usize,
    pub column_end: usize,
}

/// The kinds of tokens.
#[derive(Clone, Copy, Debug, PartialEq, Eq, Structural)]
pub enum TokenType {
    Identifier,
    Type,
    Symbol,
    Arithmetic,
    Comparison,
    Boolean,
    BooleanLiteral,
    IntegerLiteral,
}

/// The name under which a token type appears in diagnostics.
pub open spec fn token_type_name(t: TokenType) -> Seq<char> {
    match t {
        TokenType::Identifier => "Identifier"@,
        TokenType::Type => "Type"@,
        TokenType::Symbol => "Symbol"@,
        TokenType::Arithmetic => "Arithmetic"@,
        TokenType::Comparison => "Comparison"@,
        TokenType::Boolean => "Boolean"@,
        TokenType::BooleanLiteral => "BooleanLiteral"@,
        TokenType::IntegerLiteral => "IntegerLiteral"@,
    }
}

impl TokenType {
    /// The name under which the token type appears in diagnostics.
    pub fn name(&self) -> (r: &'static str)
        ensures
            r@ == token_type_name(*self),
    {
        match self {
            TokenType::Identifier => "Identifier",
            TokenType::Type => "Type",
            TokenType::Symbol => "Symbol",
            TokenType::Arithmetic => "Arithmetic",
            TokenType::Comparison => "Comparison",
            TokenType::Boolean => "Boolean",
            TokenType::BooleanLiteral => "BooleanLiteral",
            TokenType::IntegerLiteral => "IntegerLiteral",
        }
    }
}

/// What a token carries besides its span.
pub enum Payload {
    Identifier(Seq<char>),
    Type(VType),
    Symbol(Symbol),
    Arithmetic(ArithmeticOperation),
    Comparison(ComparisonOperation),
    Boolean(BooleanOperation),
    IntegerLiteral(i32),
    BooleanLiteral(bool),
}

/// The type of the token that carries `p`.
pub open spec fn payload_type(p: Payload) -> TokenType {
    match p {
        Payload::Identifier(_) => TokenType::Identifier,
        Payload::Type(_) => TokenType::Type,
        Payload::Symbol(_) => TokenType::Symbol,
        Payload::Arithmetic(_) => TokenType::Arithmetic,
        Payload::Comparison(_) => TokenType::Comparison,
        Payload::Boolean(_) => TokenType::Boolean,
        Payload::IntegerLiteral(_) => TokenType::IntegerLiteral,
        Payload::BooleanLiteral(_) => TokenType::BooleanLiteral,
    }
}

/// What a token is: a span and a payload.
pub struct TokenView {
    pub info: TokenInfo,
    pub payload: Payload,
}

impl TokenView {
    /// Whether the token is the symbol `sym`.
    pub open spec fn is_symbol(self, sym: Symbol) -> bool {
        self.payload == Payload::Symbol(sym)
    }
}

/// What every kind of token offers.
pub trait TokenTrait: Sized + View<V = TokenView> {
    /// The type of the tokens of this kind.
    spec fn kind() -> TokenType;

    fn info(&self) -> (r: TokenInfo)
        ensures
            r == self@.info,
    ;

    fn token_type(&self) -> (r: TokenType)
        ensures
            r == payload_type(self@.payload),
            r == Self::kind(),
    ;

    /// The token as one of this kind, if it is one.
    fn of_token(token: &Token) -> (r: Option<&Self>)
        ensures
            r is Some <==> payload_type(token@.payload) == Self::kind(),
            r is Some ==> r->0@ == token@,
    ;
}

/// A word that is no literal, type or operator.
pub struct IdentifierToken {
    info: TokenInfo,
    name: String,
}

impl View for IdentifierToken {
    type V = TokenView;

    closed spec fn view(&self) -> TokenView {
        TokenView { info: self.info, payload: Payload::Identifier(self.name@) }
    }
}

impl TokenTrait for IdentifierToken {
    open spec fn kind() -> TokenType {
        TokenType::Identifier
    }

    fn info(&self) -> (r: TokenInfo) {
        self.info
    }

    fn token_type(&self) -> (r: TokenType) {
        TokenType::Identifier
    }

    fn of_token(token: &Token) -> (r: Option<&Self>) {
        match &token.token {
            TokenBox::Identifier(t) => Some(t),
            _ => None,
        }
    }
}

impl IdentifierToken {
    pub fn name(&self) -> (r: String)
        ensures
            self@.payload matches Payload::Identifier(n) && r@ == n,
    {
        self.name.clone()
    }
}

/// The name of a type.
#[derive(Clone, Copy)]
pub struct TypeToken {
    info: TokenInfo,
    vtype: VType,
}

impl View for TypeToken {
    type V = TokenView;

    closed spec fn view(&self) -> TokenView {
        TokenView { info: self.info, payload: Payload::Type(self.vtype) }
    }
}

impl TokenTrait for TypeToken {
    open spec fn kind() -> TokenType {
        TokenType::Type
    }

    fn info(&self) -> (r: TokenInfo) {
        self.info
    }

    fn token_type(&self) -> (r: TokenType) {
        TokenType::Type
    }

    fn of_token(token: &Token) -> (r: Option<&Self>) {
        match &token.token {
            TokenBox::Type(t) => Some(t),
            _ => None,
        }
    }
}

impl TypeToken {
    pub fn vtype(&self) -> (r: VType)
        ensures
            self@.payload matches Payload::Type(n) && r == n,
    {
        self.vtype
    }
}

/// A punctuation symbol.
#[derive(Clone, Copy)]
pub struct SymbolToken {
    info: TokenInfo,
    sym: Symbol,
}

impl View for SymbolToken {
    type V = TokenView;

    closed spec fn view(&self) -> TokenView {
        TokenView { info: self.info, payload: Payload::Symbol(self.sym) }
    }
}

impl TokenTrait for SymbolToken {
    open spec fn kind() -> TokenType {
        TokenType::Symbol
    }

    fn info(&self) -> (r: TokenInfo) {
        self.info
    }

    fn token_type(&self) -> (r: TokenType) {
        TokenType::Symbol
    }

    fn of_token(token: &Token) -> (r: Option<&Self>) {
        match &token.token {
            TokenBox::Symbol(t) => Some(t),
            _ => None,
        }
    }
}

impl SymbolToken {
    pub fn sym(&self) -> (r: Symbol)
        ensures
            self@.payload matches Payload::Symbol(n) && r == n,
    {
        self.sym
    }
}

/// An arithmetic operator.
#[derive(Clone, Copy)]
pub struct ArithmeticToken {
    info: TokenInfo,
    op: ArithmeticOperation,
}

impl View for ArithmeticToken {
    type V = TokenView;

    closed spec fn view(&self) -> TokenView {
        TokenView { info: self.info, payload: Payload::Arithmetic(self.op) }
    }
}

impl TokenTrait for ArithmeticToken {
    open spec fn kind() -> TokenType {
        TokenType::Arithmetic
    }

    fn info(&self) -> (r: TokenInfo) {
        self.info
    }

    fn token_type(&self) -> (r: TokenType) {
        TokenType::Arithmetic
    }

    fn of_token(token: &Token) -> (r: Option<&Self>) {
        match &token.token {
            TokenBox::Arithmetic(t) => Some(t),
            _ => None,
        }
    }
}

impl ArithmeticToken {
    pub fn op(&self) -> (r: ArithmeticOperation)
        ensures
            self@.payload matches Payload::Arithmetic(n) && r == n,
    {
        self.op
    }
}

/// A comparison operator.
#[derive(Clone, Copy)]
pub struct ComparisonToken {
    info: TokenInfo,
    op: ComparisonOperation,
}

impl View for ComparisonToken {
    type V = TokenView;

    closed spec fn view(&self) -> TokenView {
        TokenView { info: self.info, payload: Payload::Comparison(self.op) }
    }
}

impl TokenTrait for ComparisonToken {
    open spec fn kind() -> TokenType {
        TokenType::Comparison
    }

    fn info(&self) -> (r: TokenInfo) {
        self.info
    }

    fn token_type(&self) -> (r: TokenType) {
        TokenType::Comparison
    }

    fn of_token(token: &Token) -> (r: Option<&Self>) {
        match &token.token {
            TokenBox::Comparison(t) => Some(t),
            _ => None,
        }
    }
}

impl ComparisonToken {
    pub fn op(&self) -> (r: ComparisonOperation)
        ensures
            self@.payload matches Payload::Comparison(n) && r == n,
    {
        self.op
    }
}

/// A boolean operator.
#[derive(Clone, Copy)]
pub struct BooleanToken {
    info: TokenInfo,
    op: BooleanOperation,
}

impl View for BooleanToken {
    type V = TokenView;

    closed spec fn view(&self) -> TokenView {
        TokenView { info: self.info, payload: Payload::Boolean(self.op) }
    }
}

impl TokenTrait for BooleanToken {
    open spec fn kind() -> TokenType {
        TokenType::Boolean
    }

    fn info(&self) -> (r: TokenInfo) {
        self.info
    }

    fn token_type(&self) -> (r: TokenType) {
        TokenType::Boolean
    }

    fn of_token(token: &Token) -> (r: Option<&Self>) {
        match &token.token {
            TokenBox::Boolean(t) => Some(t),
            _ => None,
        }
    }
}

impl BooleanToken {
    pub fn op(&self) -> (r: BooleanOperation)
        ensures
            self@.payload matches Payload::Boolean(n) && r == n,
    {
        self.op
    }
}

/// An integer literal.
#[derive(Clone, Copy)]
pub struct IntegerLiteralToken {
    info: TokenInfo,
    value: i32,
}

impl View for IntegerLiteralToken {
    type V = TokenView;

    closed spec fn view(&self) -> TokenView {
        TokenView { info: self.info, payload: Payload::IntegerLiteral(self.value) }
    }
}

impl TokenTrait for IntegerLiteralToken {
    open spec fn kind() -> TokenType {
        TokenType::IntegerLiteral
    }

    fn info(&self) -> (r: TokenInfo) {
        self.info
    }

    fn token_type(&self) -> (r: TokenType) {
        TokenType::IntegerLiteral
    }

    fn of_token(token: &Token) -> (r: Option<&Self>) {
        match &token.token {
            TokenBox::IntegerLiteral(t) => Some(t),
            _ => None,
        }
    }
}

impl IntegerLiteralToken {
    pub fn value(&self) -> (r: i32)
        ensures
            self@.payload matches Payload::IntegerLiteral(n) && r == n,
    {
        self.value
    }
}

/// A boolean literal.
#[derive(Clone, Copy)]
pub struct BooleanLiteralToken {
    info: TokenInfo,
    value: bool,
}

impl View for BooleanLiteralToken {
    type V = TokenView;

    closed spec fn view(&self) -> TokenView {
        TokenView { info: self.info, payload: Payload::BooleanLiteral(self.value) }
    }
}

impl TokenTrait for BooleanLiteralToken {
    open spec fn kind() -> TokenType {
        TokenType::BooleanLiteral
    }

    fn info(&self) -> (r: TokenInfo) {
        self.info
    }

    fn token_type(&self) -> (r: TokenType) {
        TokenType::BooleanLiteral
    }

    fn of_token(token: &Token) -> (r: Option<&Self>) {
        match &token.token {
            TokenBox::BooleanLiteral(t) => Some(t),
            _ => None,
        }
    }
}

impl BooleanLiteralToken {
    pub fn value(&self) -> (r: bool)
        ensures
            self@.payload matches Payload::BooleanLiteral(n) && r == n,
    {
        self.value
    }
}

impl Clone for IdentifierToken {
    fn clone(&self) -> (r: Self)
        ensures
            r@ == self@,
    {
        Self { info: self.info, name: self.name.clone() }
    }
}

/// A token of one of the eight kinds.
pub enum TokenBox {
    Identifier(IdentifierToken),
    Type(TypeToken),
    Symbol(SymbolToken),
    Arithmetic(ArithmeticToken),
    Comparison(ComparisonToken),
    Boolean(BooleanToken),
    IntegerLiteral(IntegerLiteralToken),
    BooleanLiteral(BooleanLiteralToken),
}

impl View for TokenBox {
    type V = TokenView;

    open spec fn view(&self) -> TokenView {
        match self {
            TokenBox::Identifier(t) => t@,
            TokenBox::Type(t) => t@,
            TokenBox::Symbol(t) => t@,
            TokenBox::Arithmetic(t) => t@,
            TokenBox::Comparison(t) => t@,
            TokenBox::Boolean(t) => t@,
            TokenBox::IntegerLiteral(t) => t@,
            TokenBox::BooleanLiteral(t) => t@,
        }
    }
}

/// A token: a span and a payload, which stay as they were made.
pub struct Token {
    token: TokenBox,
}

impl View for Token {
    type V = TokenView;

    closed spec fn view(&self) -> TokenView {
        self.token@
    }
}

impl Clone for Token {
    fn clone(&self) -> (r: Self)
        ensures
            r@ == self@,
    {
        match &self.token {
            TokenBox::Identifier(t) => Token { token: TokenBox::Identifier(t.clone()) },
            TokenBox::Type(t) => Token { token: TokenBox::Type(*t) },
            TokenBox::Symbol(t) => Token { token: TokenBox::Symbol(*t) },
            TokenBox::Arithmetic(t) => Token { token: TokenBox::Arithmetic(*t) },
            TokenBox::Comparison(t) => Token { token: TokenBox::Comparison(*t) },
            TokenBox::Boolean(t) => Token { token: TokenBox::Boolean(*t) },
            TokenBox::IntegerLiteral(t) => Token { token: TokenBox::IntegerLiteral(*t) },
            TokenBox::BooleanLiteral(t) => Token { token: TokenBox::BooleanLiteral(*t) },
        }
    }
}

impl Token {
    pub fn info(&self) -> (r: TokenInfo)
        ensures
            r == self@.info,
    {
        match &self.token {
            TokenBox::Identifier(t) => t.info(),
            TokenBox::Type(t) => t.info(),
            TokenBox::Symbol(t) => t.info(),
            TokenBox::Arithmetic(t) => t.info(),
            TokenBox::Comparison(t) => t.info(),
            TokenBox::Boolean(t) => t.info(),
            TokenBox::IntegerLiteral(t) => t.info(),
            TokenBox::BooleanLiteral(t) => t.info(),
        }
    }

    pub fn get_type(&self) -> (r: TokenType)
        ensures
            r == payload_type(self@.payload),
    {
        match &self.token {
            TokenBox::Identifier(t) => t.token_type(),
            TokenBox::Type(t) => t.token_type(),
            TokenBox::Symbol(t) => t.token_type(),
            TokenBox::Arithmetic(t) => t.token_type(),
            TokenBox::Comparison(t) => t.token_type(),
            TokenBox::Boolean(t) => t.token_type(),
            TokenBox::IntegerLiteral(t) => t.token_type(),
            TokenBox::BooleanLiteral(t) => t.token_type(),
        }
    }

    pub fn new(token: TokenBox) -> (r: Token)
        ensures
            r@ == token@,
    {
        Token { token }
    }

    pub fn new_identifier(info: TokenInfo, name: String) -> (r: Token)
        ensures
            r@ == (TokenView { info, payload: Payload::Identifier(name@) }),
    {
        Token::new(TokenBox::Identifier(IdentifierToken { info, name }))
    }

    pub fn new_type(info: TokenInfo, vtype: VType) -> (r: Token)
        ensures
            r@ == (TokenView { info, payload: Payload::Type(vtype) }),
    {
        Token::new(TokenBox::Type(TypeToken { info, vtype }))
    }

    pub fn new_symbol(info: TokenInfo, sym: Symbol) -> (r: Token)
        ensures
            r@ == (TokenView { info, payload: Payload::Symbol(sym) }),
    {
        Token::new(TokenBox::Symbol(SymbolToken { info, sym }))
    }

    pub fn new_arithmetic(info: TokenInfo, op: ArithmeticOperation) -> (r: Token)
        ensures
            r@ == (TokenView { info, payload: Payload::Arithmetic(op) }),
    {
        Token::new(TokenBox::Arithmetic(ArithmeticToken { info, op }))
    }

    pub fn new_comparison(info: TokenInfo, op: ComparisonOperation) -> (r: Token)
        ensures
            r@ == (TokenView { info, payload: Payload::Comparison(op) }),
    {
        Token::new(TokenBox::Comparison(ComparisonToken { info, op }))
    }

    pub fn new_boolean(info: TokenInfo, op: BooleanOperation) -> (r: Token)
        ensures
            r@ == (TokenView { info, payload: Payload::Boolean(op) }),
    {
        Token::new(TokenBox::Boolean(BooleanToken { info, op }))
    }

    pub fn new_integer_literal(info: TokenInfo, value: i32) -> (r: Token)
        ensures
            r@ == (TokenView { info, payload: Payload::IntegerLiteral(value) }),
    {
        Token::new(TokenBox::IntegerLiteral(IntegerLiteralToken { info, value }))
    }

    pub fn new_boolean_literal(info: TokenInfo, value: bool) -> (r: Token)
        ensures
            r@ == (TokenView { info, payload: Payload::BooleanLiteral(value) }),
    {
        Token::new(TokenBox::BooleanLiteral(BooleanLiteralToken { info, value }))
    }

    /// The token as one of the kind `T`, if it is one.
    pub fn as_token<T: TokenTrait>(&self) -> (r: Option<&T>)
        ensures
            r is Some <==> payload_type(self@.payload) == T::kind(),
            r is Some ==> r->0@ == self@,
    {
        T::of_token(self)
    }

    /// Whether the token is the symbol `sym`.
    pub fn is_symbol(&self, sym: Symbol) -> (r: bool)
        ensures
            r == self@.is_symbol(sym),
    {
        match &self.token {
            TokenBox::Symbol(t) => t.sym == sym,
            _ => false,
        }
    }
}

/// The views of a sequence of tokens, in order.
pub open spec fn tokens_view(ts: Seq<Token>) -> Seq<TokenView> {
    Seq::new(ts.len(), |i: int| ts[i]@)
}

/// Appends a copy of `t` to `acc`.
pub fn push_copy(acc: &mut VecDeque<Token>, t: &Token)
    ensures
        tokens_view(final(acc)@) == tokens_view(old(acc)@).push(t@),
{
    acc.push_back(t.clone());
    assert(tokens_view(acc@) =~= tokens_view(old(acc)@).push(t@));
}

/// Appends `t` to `tokens`.
pub fn push_token(tokens: &mut VecDeque<Token>, t: Token)
    ensures
        tokens_view(final(tokens)@) == tokens_view(old(tokens)@).push(t@),
{
    tokens.push_back(t);
    assert(tokens_view(tokens@) =~= tokens_view(old(tokens)@).push(t@));
}

/// A copy of `ts`.
pub fn copy_tokens(ts: &VecDeque<Token>) -> (r: VecDeque<Token>)
    ensures
        tokens_view(r@) == tokens_view(ts@),
        r@.len() == ts@.len(),
{
    let mut r: VecDeque<Token> = VecDeque::new();
    let mut i: usize = 0;
    while i < ts.len()
        invariant
            i <= ts@.len(),
            r@.len() == i,
            forall|j: int| 0 <= j < i ==> r@[j]@ == ts@[j]@,
        decreases ts@.len() - i,
    {
        r.push_back(ts[i].clone());
        i += 1;
    }
    assert(tokens_view(r@) =~= tokens_view(ts@));
    r
}

} // verus!
