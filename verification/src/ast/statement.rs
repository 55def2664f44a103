//! Statements: function definitions and declarations, and what stands in
//! function bodies.

use vstd::prelude::*;
use vstd::std_specs::vecdeque::VecDequeAdditionalSpecFns;
use std::collections::VecDeque;
use crate::ast::expression::ExprView;
use crate::ast::expression::Expression;
use crate::data::vtype::FunctionSignature;
use crate::data::vtype::SignatureView;
use crate::data::vtype::VType;
use crate::parser::token::Token;
use crate::parser::token::TokenView;
use crate::parser::token::copy_tokens;
use crate::parser::token::tokens_view;

verus! {

/// The shapes of statements.
#[derive(Debug, Clone, Copy, PartialEq, Eq, Structural)]
pub enum StatementType {
    FunctionDefine,
    FunctionDeclare,
    FunctionReturn,
    Expression,
    Compound,
    Declare,
    Assign,
    Print,
}

/// What a statement is. Each statement also keeps the tokens that were read
/// for it; a function definition keeps those of its header, and its body keeps
/// its own.
#[allow(inconsistent_fields)]
pub enum StmtView {
    FunctionDefine {
        tokens: Seq<TokenView>,
        signature: SignatureView,
        body_tokens: Seq<TokenView>,
        body: Seq<StmtView>,
    },
    FunctionDeclare { tokens: Seq<TokenView>, signature: SignatureView },
    FunctionReturn { tokens: Seq<TokenView>, expression: Option<ExprView> },
    Expression { tokens: Seq<TokenView>, expression: ExprView },
    Compound { tokens: Seq<TokenView>, statements: Seq<StmtView> },
    Declare { tokens: Seq<TokenView>, vtype: VType, id: u16, expression: ExprView },
    Assign { tokens: Seq<TokenView>, id: u16, expression: ExprView },
    Print { tokens: Seq<TokenView>, expression: ExprView },
}

impl StmtView {
    /// The shape of the statement.
    pub open spec fn stype(self) -> StatementType {
        match self {
            StmtView::FunctionDefine { .. } => StatementType::FunctionDefine,
            StmtView::FunctionDeclare { .. } => StatementType::FunctionDeclare,
            StmtView::FunctionReturn { .. } => StatementType::FunctionReturn,
            StmtView::Expression { .. } => StatementType::Expression,
            StmtView::Compound { .. } => StatementType::Compound,
            StmtView::Declare { .. } => StatementType::Declare,
            StmtView::Assign { .. } => StatementType::Assign,
            StmtView::Print { .. } => StatementType::Print,
        }
    }

    /// The tokens kept by the statement.
    pub open spec fn tokens(self) -> Seq<TokenView> {
        match self {
            StmtView::FunctionDefine { tokens, .. } => tokens,
            StmtView::FunctionDeclare { tokens, .. } => tokens,
            StmtView::FunctionReturn { tokens, .. } => tokens,
            StmtView::Expression { tokens, .. } => tokens,
            StmtView::Compound { tokens, .. } => tokens,
            StmtView::Declare { tokens, .. } => tokens,
            StmtView::Assign { tokens, .. } => tokens,
            StmtView::Print { tokens, .. } => tokens,
        }
    }
}

/// What every kind of statement offers.
pub trait StatementTrait: Sized + View<V = StmtView> {
    /// The shape of the statements of this kind.
    spec fn kind() -> StatementType;

    fn stype(&self) -> (r: StatementType)
        ensures
            r == self@.stype(),
            r == Self::kind(),
    ;

    fn unparse(&self) -> (r: VecDeque<Token>)
        ensures
            tokens_view(r@) == self@.tokens(),
    ;

    /// The statement as one of this kind, if it is one.
    fn of_statement(statement: &Statement) -> (r: Option<&Self>)
        ensures
            r is Some <==> statement@.stype() == Self::kind(),
            r is Some ==> r->0@ == statement@,
    ;
}

/// A function definition: a signature and a body.
pub struct FunctionDefineStatement {
    tokens: VecDeque<Token>,
    signature: FunctionSignature,
    body: CompoundStatement,
}

/// A function declaration: a signature without a body.
pub struct FunctionDeclareStatement {
    tokens: VecDeque<Token>,
    signature: FunctionSignature,
}

/// A return, with or without a value.
pub struct FunctionReturnStatement {
    tokens: VecDeque<Token>,
    expression: Option<Expression>,
}

/// An expression that stands as a statement.
pub struct ExpressionStatement {
    tokens: VecDeque<Token>,
    expression: Expression,
}

/// Statements in braces, in order.
pub struct CompoundStatement {
    tokens: VecDeque<Token>,
    statements: VecDeque<Statement>,
}

/// The declaration of a variable: its type, its id and its first value.
pub struct DeclareStatement {
    tokens: VecDeque<Token>,
    vtype: VType,
    identifier: u16,
    expression: Expression,
}

/// An assignment to a variable, by its id.
pub struct AssignStatement {
    tokens: VecDeque<Token>,
    identifier: u16,
    expression: Expression,
}

/// The printing of a value.
pub struct PrintStatement {
    tokens: VecDeque<Token>,
    expression: Expression,
}

/// A statement of one of the eight kinds.
pub enum StatementBox {
    FunctionDefine(FunctionDefineStatement),
    FunctionDeclare(FunctionDeclareStatement),
    FunctionReturn(FunctionReturnStatement),
    Expression(ExpressionStatement),
    Compound(CompoundStatement),
    Declare(DeclareStatement),
    Assign(AssignStatement),
    Print(PrintStatement),
}

/// A statement of the program tree.
pub struct Statement {
    statement: StatementBox,
}

/// The view of an optional expression.
pub open spec fn optional_view(e: Option<Expression>) -> Option<ExprView> {
    match e {
        Some(x) => Some(x@),
        None => None,
    }
}

/// The view of an optional statement.
pub open spec fn optional_statement_view(s: Option<Statement>) -> Option<StmtView> {
    match s {
        Some(x) => Some(x@),
        None => None,
    }
}

/// What `s` is, statement by statement.
pub closed spec fn statement_view(s: Statement) -> StmtView
    decreases s,
{
    match s.statement {
        StatementBox::FunctionDefine(x) => StmtView::FunctionDefine {
            tokens: tokens_view(x.tokens@),
            signature: x.signature@,
            body_tokens: tokens_view(x.body.tokens@),
            body: Seq::new(
                x.body.statements@.len(),
                |i: int|
                    if 0 <= i < x.body.statements.len() {
                        statement_view(x.body.statements[i])
                    } else {
                        arbitrary()
                    },
            ),
        },
        StatementBox::FunctionDeclare(x) => StmtView::FunctionDeclare {
            tokens: tokens_view(x.tokens@),
            signature: x.signature@,
        },
        StatementBox::FunctionReturn(x) => StmtView::FunctionReturn {
            tokens: tokens_view(x.tokens@),
            expression: optional_view(x.expression),
        },
        StatementBox::Expression(x) => StmtView::Expression {
            tokens: tokens_view(x.tokens@),
            expression: x.expression@,
        },
        StatementBox::Compound(x) => StmtView::Compound {
            tokens: tokens_view(x.tokens@),
            statements: Seq::new(
                x.statements@.len(),
                |i: int|
                    if 0 <= i < x.statements.len() {
                        statement_view(x.statements[i])
                    } else {
                        arbitrary()
                    },
            ),
        },
        StatementBox::Declare(x) => StmtView::Declare {
            tokens: tokens_view(x.tokens@),
            vtype: x.vtype,
            id: x.identifier,
            expression: x.expression@,
        },
        StatementBox::Assign(x) => StmtView::Assign {
            tokens: tokens_view(x.tokens@),
            id: x.identifier,
            expression: x.expression@,
        },
        StatementBox::Print(x) => StmtView::Print {
            tokens: tokens_view(x.tokens@),
            expression: x.expression@,
        },
    }
}

impl View for Statement {
    type V = StmtView;

    closed spec fn view(&self) -> StmtView {
        statement_view(*self)
    }
}

/// The views of a sequence of statements, in order.
pub open spec fn statements_view(ss: Seq<Statement>) -> Seq<StmtView> {
    Seq::new(ss.len(), |i: int| ss[i]@)
}

impl View for CompoundStatement {
    type V = StmtView;

    closed spec fn view(&self) -> StmtView {
        StmtView::Compound {
            tokens: tokens_view(self.tokens@),
            statements: statements_view(self.statements@),
        }
    }
}

impl View for FunctionDefineStatement {
    type V = StmtView;

    closed spec fn view(&self) -> StmtView {
        StmtView::FunctionDefine {
            tokens: tokens_view(self.tokens@),
            signature: self.signature@,
            body_tokens: tokens_view(self.body.tokens@),
            body: statements_view(self.body.statements@),
        }
    }
}

impl View for FunctionDeclareStatement {
    type V = StmtView;

    closed spec fn view(&self) -> StmtView {
        StmtView::FunctionDeclare { tokens: tokens_view(self.tokens@), signature: self.signature@ }
    }
}

impl View for FunctionReturnStatement {
    type V = StmtView;

    closed spec fn view(&self) -> StmtView {
        StmtView::FunctionReturn {
            tokens: tokens_view(self.tokens@),
            expression: optional_view(self.expression),
        }
    }
}

impl View for ExpressionStatement {
    type V = StmtView;

    closed spec fn view(&self) -> StmtView {
        StmtView::Expression { tokens: tokens_view(self.tokens@), expression: self.expression@ }
    }
}

impl View for DeclareStatement {
    type V = StmtView;

    closed spec fn view(&self) -> StmtView {
        StmtView::Declare {
            tokens: tokens_view(self.tokens@),
            vtype: self.vtype,
            id: self.identifier,
            expression: self.expression@,
        }
    }
}

impl View for AssignStatement {
    type V = StmtView;

    closed spec fn view(&self) -> StmtView {
        StmtView::Assign {
            tokens: tokens_view(self.tokens@),
            id: self.identifier,
            expression: self.expression@,
        }
    }
}

impl View for PrintStatement {
    type V = StmtView;

    closed spec fn view(&self) -> StmtView {
        StmtView::Print { tokens: tokens_view(self.tokens@), expression: self.expression@ }
    }
}

impl View for StatementBox {
    type V = StmtView;

    open spec fn view(&self) -> StmtView {
        match self {
            StatementBox::FunctionDefine(x) => x@,
            StatementBox::FunctionDeclare(x) => x@,
            StatementBox::FunctionReturn(x) => x@,
            StatementBox::Expression(x) => x@,
            StatementBox::Compound(x) => x@,
            StatementBox::Declare(x) => x@,
            StatementBox::Assign(x) => x@,
            StatementBox::Print(x) => x@,
        }
    }
}

/// The view of a statement is the view of what it holds.
proof fn lemma_view_of_statement(s: Statement)
    ensures
        s@ == s.statement@,
{
    match s.statement {
        StatementBox::FunctionDefine(x) => {
            assert(s@ matches StmtView::FunctionDefine { body, .. } && body =~= statements_view(
                x.body.statements@,
            ));
        },
        StatementBox::Compound(x) => {
            assert(s@ matches StmtView::Compound { statements, .. } && statements
                =~= statements_view(x.statements@));
        },
        _ => {},
    }
}

/// A copy of `ss`.
pub fn copy_statements(ss: &VecDeque<Statement>) -> (r: VecDeque<Statement>)
    ensures
        statements_view(r@) == statements_view(ss@),
    decreases ss, 0int,
{
    let mut r: VecDeque<Statement> = VecDeque::new();
    let mut i: usize = 0;
    while i < ss.len()
        invariant
            i <= ss@.len(),
            r@.len() == i,
            forall|j: int| 0 <= j < i ==> r@[j]@ == ss@[j]@,
        decreases ss@.len() - i,
    {
        r.push_back(ss[i].clone());
        i += 1;
    }
    assert(statements_view(r@) =~= statements_view(ss@));
    r
}

impl Clone for CompoundStatement {
    fn clone(&self) -> (r: Self)
        ensures
            r@ == self@,
        decreases self, 1int,
    {
        Self { tokens: copy_tokens(&self.tokens), statements: copy_statements(&self.statements) }
    }
}

impl Clone for FunctionDefineStatement {
    fn clone(&self) -> (r: Self)
        ensures
            r@ == self@,
        decreases self, 2int,
    {
        let body = self.body.clone();
        Self { tokens: copy_tokens(&self.tokens), signature: self.signature.clone(), body }
    }
}

impl Clone for FunctionDeclareStatement {
    fn clone(&self) -> (r: Self)
        ensures
            r@ == self@,
    {
        Self { tokens: copy_tokens(&self.tokens), signature: self.signature.clone() }
    }
}

impl Clone for FunctionReturnStatement {
    fn clone(&self) -> (r: Self)
        ensures
            r@ == self@,
    {
        let expression = match &self.expression {
            Some(e) => Some(e.clone()),
            None => None,
        };
        Self { tokens: copy_tokens(&self.tokens), expression }
    }
}

impl Clone for ExpressionStatement {
    fn clone(&self) -> (r: Self)
        ensures
            r@ == self@,
    {
        Self { tokens: copy_tokens(&self.tokens), expression: self.expression.clone() }
    }
}

impl Clone for DeclareStatement {
    fn clone(&self) -> (r: Self)
        ensures
            r@ == self@,
    {
        Self {
            tokens: copy_tokens(&self.tokens),
            vtype: self.vtype,
            identifier: self.identifier,
            expression: self.expression.clone(),
        }
    }
}

impl Clone for AssignStatement {
    fn clone(&self) -> (r: Self)
        ensures
            r@ == self@,
    {
        Self {
            tokens: copy_tokens(&self.tokens),
            identifier: self.identifier,
            expression: self.expression.clone(),
        }
    }
}

impl Clone for PrintStatement {
    fn clone(&self) -> (r: Self)
        ensures
            r@ == self@,
    {
        Self { tokens: copy_tokens(&self.tokens), expression: self.expression.clone() }
    }
}

impl Clone for Statement {
    fn clone(&self) -> (r: Self)
        ensures
            r@ == self@,
        decreases self, 3int,
    {
        proof {
            lemma_view_of_statement(*self);
        }
        let r = match &self.statement {
            StatementBox::FunctionDefine(x) => Statement {
                statement: StatementBox::FunctionDefine(x.clone()),
            },
            StatementBox::FunctionDeclare(x) => Statement {
                statement: StatementBox::FunctionDeclare(x.clone()),
            },
            StatementBox::FunctionReturn(x) => Statement {
                statement: StatementBox::FunctionReturn(x.clone()),
            },
            StatementBox::Expression(x) => Statement { statement: StatementBox::Expression(x.clone()) },
            StatementBox::Compound(x) => Statement { statement: StatementBox::Compound(x.clone()) },
            StatementBox::Declare(x) => Statement { statement: StatementBox::Declare(x.clone()) },
            StatementBox::Assign(x) => Statement { statement: StatementBox::Assign(x.clone()) },
            StatementBox::Print(x) => Statement { statement: StatementBox::Print(x.clone()) },
        };
        proof {
            lemma_view_of_statement(r);
        }
        r
    }
}

impl StatementTrait for FunctionDefineStatement {
    open spec fn kind() -> StatementType {
        StatementType::FunctionDefine
    }

    fn stype(&self) -> (r: StatementType) {
        StatementType::FunctionDefine
    }

    fn unparse(&self) -> (r: VecDeque<Token>) {
        copy_tokens(&self.tokens)
    }

    fn of_statement(statement: &Statement) -> (r: Option<&Self>) {
        proof {
            lemma_view_of_statement(*statement);
        }
        match &statement.statement {
            StatementBox::FunctionDefine(x) => Some(x),
            _ => None,
        }
    }
}

impl StatementTrait for FunctionDeclareStatement {
    open spec fn kind() -> StatementType {
        StatementType::FunctionDeclare
    }

    fn stype(&self) -> (r: StatementType) {
        StatementType::FunctionDeclare
    }

    fn unparse(&self) -> (r: VecDeque<Token>) {
        copy_tokens(&self.tokens)
    }

    fn of_statement(statement: &Statement) -> (r: Option<&Self>) {
        proof {
            lemma_view_of_statement(*statement);
        }
        match &statement.statement {
            StatementBox::FunctionDeclare(x) => Some(x),
            _ => None,
        }
    }
}

impl StatementTrait for FunctionReturnStatement {
    open spec fn kind() -> StatementType {
        StatementType::FunctionReturn
    }

    fn stype(&self) -> (r: StatementType) {
        StatementType::FunctionReturn
    }

    fn unparse(&self) -> (r: VecDeque<Token>) {
        copy_tokens(&self.tokens)
    }

    fn of_statement(statement: &Statement) -> (r: Option<&Self>) {
        proof {
            lemma_view_of_statement(*statement);
        }
        match &statement.statement {
            StatementBox::FunctionReturn(x) => Some(x),
            _ => None,
        }
    }
}

impl StatementTrait for ExpressionStatement {
    open spec fn kind() -> StatementType {
        StatementType::Expression
    }

    fn stype(&self) -> (r: StatementType) {
        StatementType::Expression
    }

    fn unparse(&self) -> (r: VecDeque<Token>) {
        copy_tokens(&self.tokens)
    }

    fn of_statement(statement: &Statement) -> (r: Option<&Self>) {
        proof {
            lemma_view_of_statement(*statement);
        }
        match &statement.statement {
            StatementBox::Expression(x) => Some(x),
            _ => None,
        }
    }
}

impl StatementTrait for CompoundStatement {
    open spec fn kind() -> StatementType {
        StatementType::Compound
    }

    fn stype(&self) -> (r: StatementType) {
        StatementType::Compound
    }

    fn unparse(&self) -> (r: VecDeque<Token>) {
        copy_tokens(&self.tokens)
    }

    fn of_statement(statement: &Statement) -> (r: Option<&Self>) {
        proof {
            lemma_view_of_statement(*statement);
        }
        match &statement.statement {
            StatementBox::Compound(x) => Some(x),
            _ => None,
        }
    }
}

impl StatementTrait for DeclareStatement {
    open spec fn kind() -> StatementType {
        StatementType::Declare
    }

    fn stype(&self) -> (r: StatementType) {
        StatementType::Declare
    }

    fn unparse(&self) -> (r: VecDeque<Token>) {
        copy_tokens(&self.tokens)
    }

    fn of_statement(statement: &Statement) -> (r: Option<&Self>) {
        proof {
            lemma_view_of_statement(*statement);
        }
        match &statement.statement {
            StatementBox::Declare(x) => Some(x),
            _ => None,
        }
    }
}

impl StatementTrait for AssignStatement {
    open spec fn kind() -> StatementType {
        StatementType::Assign
    }

    fn stype(&self) -> (r: StatementType) {
        StatementType::Assign
    }

    fn unparse(&self) -> (r: VecDeque<Token>) {
        copy_tokens(&self.tokens)
    }

    fn of_statement(statement: &Statement) -> (r: Option<&Self>) {
        proof {
            lemma_view_of_statement(*statement);
        }
        match &statement.statement {
            StatementBox::Assign(x) => Some(x),
            _ => None,
        }
    }
}

impl StatementTrait for PrintStatement {
    open spec fn kind() -> StatementType {
        StatementType::Print
    }

    fn stype(&self) -> (r: StatementType) {
        StatementType::Print
    }

    fn unparse(&self) -> (r: VecDeque<Token>) {
        copy_tokens(&self.tokens)
    }

    fn of_statement(statement: &Statement) -> (r: Option<&Self>) {
        proof {
            lemma_view_of_statement(*statement);
        }
        match &statement.statement {
            StatementBox::Print(x) => Some(x),
            _ => None,
        }
    }
}

impl FunctionDefineStatement {
    pub fn new(tokens: VecDeque<Token>, signature: FunctionSignature, body: CompoundStatement) -> (r:
        Self)
        ensures
            body@ matches StmtView::Compound { tokens: body_tokens, statements } && r@ == (
            StmtView::FunctionDefine {
                tokens: tokens_view(tokens@),
                signature: signature@,
                body_tokens,
                body: statements,
            }),
    {
        Self { tokens, signature, body }
    }

    pub fn signature(&self) -> (r: FunctionSignature)
        ensures
            self@ matches StmtView::FunctionDefine { signature, .. } && r@ == signature,
    {
        self.signature.clone()
    }

    pub fn body(&self) -> (r: CompoundStatement)
        ensures
            self@ matches StmtView::FunctionDefine { body_tokens, body, .. } && r@ == (
            StmtView::Compound { tokens: body_tokens, statements: body }),
    {
        self.body.clone()
    }
}

impl FunctionDeclareStatement {
    pub fn new(tokens: VecDeque<Token>, signature: FunctionSignature) -> (r: Self)
        ensures
            r@ == (StmtView::FunctionDeclare { tokens: tokens_view(tokens@), signature: signature@ }),
    {
        Self { tokens, signature }
    }

    pub fn signature(&self) -> (r: FunctionSignature)
        ensures
            self@ matches StmtView::FunctionDeclare { signature, .. } && r@ == signature,
    {
        self.signature.clone()
    }
}

impl FunctionReturnStatement {
    pub fn new(tokens: VecDeque<Token>, expression: Option<Expression>) -> (r: Self)
        ensures
            r@ == (StmtView::FunctionReturn {
                tokens: tokens_view(tokens@),
                expression: optional_view(expression),
            }),
    {
        Self { tokens, expression }
    }

    pub fn expression(&self) -> (r: Option<Expression>)
        ensures
            self@ matches StmtView::FunctionReturn { expression, .. } && optional_view(r)
                == expression,
    {
        match &self.expression {
            Some(e) => Some(e.clone()),
            None => None,
        }
    }
}

impl ExpressionStatement {
    pub fn new(tokens: VecDeque<Token>, expression: Expression) -> (r: Self)
        ensures
            r@ == (StmtView::Expression { tokens: tokens_view(tokens@), expression: expression@ }),
    {
        Self { tokens, expression }
    }

    pub fn expression(&self) -> (r: Expression)
        ensures
            self@ matches StmtView::Expression { expression, .. } && r@ == expression,
    {
        self.expression.clone()
    }
}

impl CompoundStatement {
    pub fn new(tokens: VecDeque<Token>, statements: VecDeque<Statement>) -> (r: Self)
        ensures
            r@ == (StmtView::Compound {
                tokens: tokens_view(tokens@),
                statements: statements_view(statements@),
            }),
    {
        Self { tokens, statements }
    }

    pub fn statements(&self) -> (r: VecDeque<Statement>)
        ensures
            self@ matches StmtView::Compound { statements, .. } && statements_view(r@)
                == statements,
    {
        copy_statements(&self.statements)
    }
}

impl DeclareStatement {
    pub fn new(tokens: VecDeque<Token>, vtype: VType, identifier: u16, expression: Expression) -> (r:
        Self)
        ensures
            r@ == (StmtView::Declare {
                tokens: tokens_view(tokens@),
                vtype,
                id: identifier,
                expression: expression@,
            }),
    {
        Self { tokens, vtype, identifier, expression }
    }

    pub fn vtype(&self) -> (r: VType)
        ensures
            self@ matches StmtView::Declare { vtype, .. } && r == vtype,
    {
        self.vtype
    }

    pub fn identifier(&self) -> (r: u16)
        ensures
            self@ matches StmtView::Declare { id, .. } && r == id,
    {
        self.identifier
    }

    pub fn expression(&self) -> (r: Expression)
        ensures
            self@ matches StmtView::Declare { expression, .. } && r@ == expression,
    {
        self.expression.clone()
    }
}

impl AssignStatement {
    pub fn new(tokens: VecDeque<Token>, identifier: u16, expression: Expression) -> (r: Self)
        ensures
            r@ == (StmtView::Assign {
                tokens: tokens_view(tokens@),
                id: identifier,
                expression: expression@,
            }),
    {
        Self { tokens, identifier, expression }
    }

    pub fn identifier(&self) -> (r: u16)
        ensures
            self@ matches StmtView::Assign { id, .. } && r == id,
    {
        self.identifier
    }

    pub fn expression(&self) -> (r: Expression)
        ensures
            self@ matches StmtView::Assign { expression, .. } && r@ == expression,
    {
        self.expression.clone()
    }
}

impl PrintStatement {
    pub fn new(tokens: VecDeque<Token>, expression: Expression) -> (r: Self)
        ensures
            r@ == (StmtView::Print { tokens: tokens_view(tokens@), expression: expression@ }),
    {
        Self { tokens, expression }
    }

    pub fn expression(&self) -> (r: Expression)
        ensures
            self@ matches StmtView::Print { expression, .. } && r@ == expression,
    {
        self.expression.clone()
    }
}

impl Statement {
    pub fn stype(&self) -> (r: StatementType)
        ensures
            r == self@.stype(),
    {
        proof {
            lemma_view_of_statement(*self);
        }
        match &self.statement {
            StatementBox::FunctionDefine(x) => x.stype(),
            StatementBox::FunctionDeclare(x) => x.stype(),
            StatementBox::FunctionReturn(x) => x.stype(),
            StatementBox::Expression(x) => x.stype(),
            StatementBox::Compound(x) => x.stype(),
            StatementBox::Declare(x) => x.stype(),
            StatementBox::Assign(x) => x.stype(),
            StatementBox::Print(x) => x.stype(),
        }
    }

    pub fn new(statement: StatementBox) -> (r: Self)
        ensures
            r@ == statement@,
    {
        let r = Self { statement };
        proof {
            lemma_view_of_statement(r);
        }
        r
    }

    pub fn new_function_define(
        tokens: VecDeque<Token>,
        signature: FunctionSignature,
        body: CompoundStatement,
    ) -> (r: Self)
        ensures
            body@ matches StmtView::Compound { tokens: body_tokens, statements } && r@ == (
            StmtView::FunctionDefine {
                tokens: tokens_view(tokens@),
                signature: signature@,
                body_tokens,
                body: statements,
            }),
    {
        Self::new(StatementBox::FunctionDefine(FunctionDefineStatement::new(tokens, signature, body)))
    }

    pub fn new_function_declare(tokens: VecDeque<Token>, signature: FunctionSignature) -> (r: Self)
        ensures
            r@ == (StmtView::FunctionDeclare { tokens: tokens_view(tokens@), signature: signature@ }),
    {
        Self::new(StatementBox::FunctionDeclare(FunctionDeclareStatement::new(tokens, signature)))
    }

    pub fn new_function_return(tokens: VecDeque<Token>, expression: Option<Expression>) -> (r: Self)
        ensures
            r@ == (StmtView::FunctionReturn {
                tokens: tokens_view(tokens@),
                expression: optional_view(expression),
            }),
    {
        Self::new(StatementBox::FunctionReturn(FunctionReturnStatement::new(tokens, expression)))
    }

    pub fn new_expression(tokens: VecDeque<Token>, expression: Expression) -> (r: Self)
        ensures
            r@ == (StmtView::Expression { tokens: tokens_view(tokens@), expression: expression@ }),
    {
        Self::new(StatementBox::Expression(ExpressionStatement::new(tokens, expression)))
    }

    pub fn new_compound(tokens: VecDeque<Token>, statements: VecDeque<Statement>) -> (r: Self)
        ensures
            r@ == (StmtView::Compound {
                tokens: tokens_view(tokens@),
                statements: statements_view(statements@),
            }),
    {
        Self::new(StatementBox::Compound(CompoundStatement::new(tokens, statements)))
    }

    pub fn new_declare(
        tokens: VecDeque<Token>,
        vtype: VType,
        identifier: u16,
        expression: Expression,
    ) -> (r: Self)
        ensures
            r@ == (StmtView::Declare {
                tokens: tokens_view(tokens@),
                vtype,
                id: identifier,
                expression: expression@,
            }),
    {
        Self::new(StatementBox::Declare(DeclareStatement::new(tokens, vtype, identifier, expression)))
    }

    pub fn new_assign(tokens: VecDeque<Token>, identifier: u16, expression: Expression) -> (r: Self)
        ensures
            r@ == (StmtView::Assign {
                tokens: tokens_view(tokens@),
                id: identifier,
                expression: expression@,
            }),
    {
        Self::new(StatementBox::Assign(AssignStatement::new(tokens, identifier, expression)))
    }

    pub fn new_print(tokens: VecDeque<Token>, expression: Expression) -> (r: Self)
        ensures
            r@ == (StmtView::Print { tokens: tokens_view(tokens@), expression: expression@ }),
    {
        Self::new(StatementBox::Print(PrintStatement::new(tokens, expression)))
    }

    /// The statement as one of the kind `T`, if it is one.
    pub fn as_statement<T: StatementTrait>(&self) -> (r: Option<&T>)
        ensures
            r is Some <==> self@.stype() == T::kind(),
            r is Some ==> r->0@ == self@,
    {
        T::of_statement(self)
    }
}

} // verus!
