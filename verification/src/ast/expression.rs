//! Expressions: a tree of literals, variables, calls and binary operations.

use vstd::prelude::*;
use vstd::std_specs::vecdeque::VecDequeAdditionalSpecFns;
use std::collections::VecDeque;
use crate::ast::literal::Literal;
use crate::ast::literal::LiteralView;
use crate::data::ops::ArithmeticOperation;
use crate::data::ops::BooleanOperation;
use crate::data::ops::ComparisonOperation;
use crate::data::vtype::VType;
use crate::parser::token::Token;
use crate::parser::token::TokenView;
use crate::parser::token::copy_tokens;
use crate::parser::token::tokens_view;

verus! {

/// The shapes of expression nodes.
#[derive(Clone, Copy, Debug, PartialEq, Eq, Structural)]
pub enum ExpressionType {
    Literal,
    FunctionCall,
    Variable,
    Arithmetic,
    Comparison,
    Boolean,
}

/// What an expression is. Each node also keeps the tokens that were read
/// between the completion of the node before it and its own.
#[allow(inconsistent_fields)]
pub enum ExprView {
    Literal { tokens: Seq<TokenView>, literal: LiteralView },
    FunctionCall { tokens: Seq<TokenView>, vtype: VType, name: Seq<char>, args: Seq<ExprView> },
    Variable { tokens: Seq<TokenView>, vtype: VType, id: u16 },
    Arithmetic {
        tokens: Seq<TokenView>,
        vtype: VType,
        op: ArithmeticOperation,
        left: Box<ExprView>,
        right: Box<ExprView>,
    },
    Comparison {
        tokens: Seq<TokenView>,
        op: ComparisonOperation,
        left: Box<ExprView>,
        right: Box<ExprView>,
    },
    Boolean { tokens: Seq<TokenView>, op: BooleanOperation, left: Box<ExprView>, right: Box<ExprView> },
}

impl ExprView {
    /// The type of the expression's value.
    pub open spec fn vtype(self) -> VType {
        match self {
            ExprView::Literal { literal, .. } => literal.vtype(),
            ExprView::FunctionCall { vtype, .. } => vtype,
            ExprView::Variable { vtype, .. } => vtype,
            ExprView::Arithmetic { vtype, .. } => vtype,
            ExprView::Comparison { .. } => VType::Boolean,
            ExprView::Boolean { .. } => VType::Boolean,
        }
    }

    /// The shape of the expression's topmost node.
    pub open spec fn etype(self) -> ExpressionType {
        match self {
            ExprView::Literal { .. } => ExpressionType::Literal,
            ExprView::FunctionCall { .. } => ExpressionType::FunctionCall,
            ExprView::Variable { .. } => ExpressionType::Variable,
            ExprView::Arithmetic { .. } => ExpressionType::Arithmetic,
            ExprView::Comparison { .. } => ExpressionType::Comparison,
            ExprView::Boolean { .. } => ExpressionType::Boolean,
        }
    }

    /// The tokens kept by the expression's topmost node.
    pub open spec fn tokens(self) -> Seq<TokenView> {
        match self {
            ExprView::Literal { tokens, .. } => tokens,
            ExprView::FunctionCall { tokens, .. } => tokens,
            ExprView::Variable { tokens, .. } => tokens,
            ExprView::Arithmetic { tokens, .. } => tokens,
            ExprView::Comparison { tokens, .. } => tokens,
            ExprView::Boolean { tokens, .. } => tokens,
        }
    }
}

/// What every kind of expression node offers.
pub trait ExpressionTrait: Sized + View<V = ExprView> {
    /// The shape of the nodes of this kind.
    spec fn kind() -> ExpressionType;

    fn vtype(&self) -> (r: VType)
        ensures
            r == self@.vtype(),
    ;

    fn etype(&self) -> (r: ExpressionType)
        ensures
            r == self@.etype(),
            r == Self::kind(),
    ;

    fn unparse(&self) -> (r: VecDeque<Token>)
        ensures
            tokens_view(r@) == self@.tokens(),
    ;

    /// The expression's topmost node as one of this kind, if it is one.
    fn of_expression(expression: &Expression) -> (r: Option<&Self>)
        ensures
            r is Some <==> expression@.etype() == Self::kind(),
            r is Some ==> r->0@ == expression@,
    ;
}

/// A literal value.
pub struct LiteralExpression {
    tokens: VecDeque<Token>,
    literal: Literal,
}

/// A call of a function by name, with its arguments in order.
pub struct FunctionCallExpression {
    tokens: VecDeque<Token>,
    vtype: VType,
    name: String,
    passed_arguments: VecDeque<Expression>,
}

/// A variable, by the id that its declaration minted.
pub struct VariableExpression {
    tokens: VecDeque<Token>,
    vtype: VType,
    identifier: u16,
}

/// An arithmetic operation on two operands.
pub struct ArithmeticExpression {
    tokens: VecDeque<Token>,
    vtype: VType,
    op: ArithmeticOperation,
    left: Expression,
    right: Expression,
}

/// A comparison of two operands; its value is a boolean.
pub struct ComparisonExpression {
    tokens: VecDeque<Token>,
    op: ComparisonOperation,
    left: Expression,
    right: Expression,
}

/// A boolean operation on two operands; its value is a boolean.
pub struct BooleanExpression {
    tokens: VecDeque<Token>,
    op: BooleanOperation,
    left: Expression,
    right: Expression,
}

/// An expression node of one of the six kinds.
pub enum ExpressionBox {
    Literal(LiteralExpression),
    FunctionCall(FunctionCallExpression),
    Variable(VariableExpression),
    Arithmetic(Box<ArithmeticExpression>),
    Comparison(Box<ComparisonExpression>),
    Boolean(Box<BooleanExpression>),
}

/// An expression: a tree of nodes, each of which owns its operands.
pub struct Expression {
    expression: ExpressionBox,
}

/// What `e` is, node by node.
pub closed spec fn expression_view(e: Expression) -> ExprView
    decreases e,
{
    match e.expression {
        ExpressionBox::Literal(x) => ExprView::Literal {
            tokens: tokens_view(x.tokens@),
            literal: x.literal@,
        },
        ExpressionBox::FunctionCall(x) => ExprView::FunctionCall {
            tokens: tokens_view(x.tokens@),
            vtype: x.vtype,
            name: x.name@,
            args: Seq::new(
                x.passed_arguments@.len(),
                |i: int|
                    if 0 <= i < x.passed_arguments.len() {
                        expression_view(x.passed_arguments[i])
                    } else {
                        arbitrary()
                    },
            ),
        },
        ExpressionBox::Variable(x) => ExprView::Variable {
            tokens: tokens_view(x.tokens@),
            vtype: x.vtype,
            id: x.identifier,
        },
        ExpressionBox::Arithmetic(x) => ExprView::Arithmetic {
            tokens: tokens_view(x.tokens@),
            vtype: x.vtype,
            op: x.op,
            left: Box::new(expression_view(x.left)),
            right: Box::new(expression_view(x.right)),
        },
        ExpressionBox::Comparison(x) => ExprView::Comparison {
            tokens: tokens_view(x.tokens@),
            op: x.op,
            left: Box::new(expression_view(x.left)),
            right: Box::new(expression_view(x.right)),
        },
        ExpressionBox::Boolean(x) => ExprView::Boolean {
            tokens: tokens_view(x.tokens@),
            op: x.op,
            left: Box::new(expression_view(x.left)),
            right: Box::new(expression_view(x.right)),
        },
    }
}

impl View for Expression {
    type V = ExprView;

    closed spec fn view(&self) -> ExprView {
        expression_view(*self)
    }
}

/// The views of a sequence of expressions, in order.
pub open spec fn expressions_view(es: Seq<Expression>) -> Seq<ExprView> {
    Seq::new(es.len(), |i: int| es[i]@)
}

impl View for LiteralExpression {
    type V = ExprView;

    closed spec fn view(&self) -> ExprView {
        ExprView::Literal { tokens: tokens_view(self.tokens@), literal: self.literal@ }
    }
}

impl View for FunctionCallExpression {
    type V = ExprView;

    closed spec fn view(&self) -> ExprView {
        ExprView::FunctionCall {
            tokens: tokens_view(self.tokens@),
            vtype: self.vtype,
            name: self.name@,
            args: expressions_view(self.passed_arguments@),
        }
    }
}

impl View for VariableExpression {
    type V = ExprView;

    closed spec fn view(&self) -> ExprView {
        ExprView::Variable { tokens: tokens_view(self.tokens@), vtype: self.vtype, id: self.identifier }
    }
}

impl View for ArithmeticExpression {
    type V = ExprView;

    closed spec fn view(&self) -> ExprView {
        ExprView::Arithmetic {
            tokens: tokens_view(self.tokens@),
            vtype: self.vtype,
            op: self.op,
            left: Box::new(self.left@),
            right: Box::new(self.right@),
        }
    }
}

impl View for ComparisonExpression {
    type V = ExprView;

    closed spec fn view(&self) -> ExprView {
        ExprView::Comparison {
            tokens: tokens_view(self.tokens@),
            op: self.op,
            left: Box::new(self.left@),
            right: Box::new(self.right@),
        }
    }
}

impl View for BooleanExpression {
    type V = ExprView;

    closed spec fn view(&self) -> ExprView {
        ExprView::Boolean {
            tokens: tokens_view(self.tokens@),
            op: self.op,
            left: Box::new(self.left@),
            right: Box::new(self.right@),
        }
    }
}

/// The view of an expression is the view of its topmost node.
proof fn lemma_view_of_node(e: Expression)
    ensures
        e@ == match e.expression {
            ExpressionBox::Literal(x) => x@,
            ExpressionBox::FunctionCall(x) => x@,
            ExpressionBox::Variable(x) => x@,
            ExpressionBox::Arithmetic(x) => x@,
            ExpressionBox::Comparison(x) => x@,
            ExpressionBox::Boolean(x) => x@,
        },
{
    match e.expression {
        ExpressionBox::FunctionCall(x) => {
            assert(e@ matches ExprView::FunctionCall { args, .. } && args =~= expressions_view(
                x.passed_arguments@,
            ));
        },
        _ => {},
    }
}

/// A copy of `es`.
pub fn copy_expressions(es: &VecDeque<Expression>) -> (r: VecDeque<Expression>)
    ensures
        expressions_view(r@) == expressions_view(es@),
    decreases es, 0int,
{
    let mut r: VecDeque<Expression> = VecDeque::new();
    let mut i: usize = 0;
    while i < es.len()
        invariant
            i <= es@.len(),
            r@.len() == i,
            forall|j: int| 0 <= j < i ==> r@[j]@ == es@[j]@,
        decreases es@.len() - i,
    {
        r.push_back(es[i].clone());
        i += 1;
    }
    assert(expressions_view(r@) =~= expressions_view(es@));
    r
}

impl Clone for LiteralExpression {
    fn clone(&self) -> (r: Self)
        ensures
            r@ == self@,
    {
        Self { tokens: copy_tokens(&self.tokens), literal: self.literal }
    }
}

impl Clone for VariableExpression {
    fn clone(&self) -> (r: Self)
        ensures
            r@ == self@,
    {
        Self { tokens: copy_tokens(&self.tokens), vtype: self.vtype, identifier: self.identifier }
    }
}

impl Clone for FunctionCallExpression {
    fn clone(&self) -> (r: Self)
        ensures
            r@ == self@,
        decreases self, 1int,
    {
        Self {
            tokens: copy_tokens(&self.tokens),
            vtype: self.vtype,
            name: self.name.clone(),
            passed_arguments: copy_expressions(&self.passed_arguments),
        }
    }
}

impl Clone for ArithmeticExpression {
    fn clone(&self) -> (r: Self)
        ensures
            r@ == self@,
        decreases self, 1int,
    {
        Self {
            tokens: copy_tokens(&self.tokens),
            vtype: self.vtype,
            op: self.op,
            left: self.left.clone(),
            right: self.right.clone(),
        }
    }
}

impl Clone for ComparisonExpression {
    fn clone(&self) -> (r: Self)
        ensures
            r@ == self@,
        decreases self, 1int,
    {
        Self {
            tokens: copy_tokens(&self.tokens),
            op: self.op,
            left: self.left.clone(),
            right: self.right.clone(),
        }
    }
}

impl Clone for BooleanExpression {
    fn clone(&self) -> (r: Self)
        ensures
            r@ == self@,
        decreases self, 1int,
    {
        Self {
            tokens: copy_tokens(&self.tokens),
            op: self.op,
            left: self.left.clone(),
            right: self.right.clone(),
        }
    }
}

impl Clone for Expression {
    fn clone(&self) -> (r: Self)
        ensures
            r@ == self@,
        decreases self, 1int,
    {
        proof {
            lemma_view_of_node(*self);
        }
        let r = match &self.expression {
            ExpressionBox::Literal(x) => Expression { expression: ExpressionBox::Literal(x.clone()) },
            ExpressionBox::FunctionCall(x) => Expression {
                expression: ExpressionBox::FunctionCall(x.clone()),
            },
            ExpressionBox::Variable(x) => Expression { expression: ExpressionBox::Variable(x.clone()) },
            ExpressionBox::Arithmetic(x) => Expression {
                expression: ExpressionBox::Arithmetic(Box::new((**x).clone())),
            },
            ExpressionBox::Comparison(x) => Expression {
                expression: ExpressionBox::Comparison(Box::new((**x).clone())),
            },
            ExpressionBox::Boolean(x) => Expression {
                expression: ExpressionBox::Boolean(Box::new((**x).clone())),
            },
        };
        proof {
            lemma_view_of_node(r);
        }
        r
    }
}


impl ExpressionTrait for LiteralExpression {
    open spec fn kind() -> ExpressionType {
        ExpressionType::Literal
    }

    fn vtype(&self) -> (r: VType) {
        self.literal.virtual_type()
    }

    fn etype(&self) -> (r: ExpressionType) {
        ExpressionType::Literal
    }

    fn unparse(&self) -> (r: VecDeque<Token>) {
        copy_tokens(&self.tokens)
    }

    fn of_expression(expression: &Expression) -> (r: Option<&Self>) {
        proof {
            lemma_view_of_node(*expression);
        }
        match &expression.expression {
            ExpressionBox::Literal(x) => Some(x),
            _ => None,
        }
    }
}

impl LiteralExpression {
    pub fn new(tokens: VecDeque<Token>, literal: Literal) -> (r: Self)
        ensures
            r@ == (ExprView::Literal { tokens: tokens_view(tokens@), literal: literal@ }),
    {
        Self { tokens, literal }
    }

    pub fn literal(&self) -> (r: &Literal)
        ensures
            self@ matches ExprView::Literal { literal, .. } && r@ == literal,
    {
        &self.literal
    }
}

impl ExpressionTrait for FunctionCallExpression {
    open spec fn kind() -> ExpressionType {
        ExpressionType::FunctionCall
    }

    fn vtype(&self) -> (r: VType) {
        self.vtype
    }

    fn etype(&self) -> (r: ExpressionType) {
        ExpressionType::FunctionCall
    }

    fn unparse(&self) -> (r: VecDeque<Token>) {
        copy_tokens(&self.tokens)
    }

    fn of_expression(expression: &Expression) -> (r: Option<&Self>) {
        proof {
            lemma_view_of_node(*expression);
        }
        match &expression.expression {
            ExpressionBox::FunctionCall(x) => Some(x),
            _ => None,
        }
    }
}

impl FunctionCallExpression {
    pub fn new(
        tokens: VecDeque<Token>,
        vtype: VType,
        name: String,
        passed_arguments: VecDeque<Expression>,
    ) -> (r: Self)
        ensures
            r@ == (ExprView::FunctionCall {
                tokens: tokens_view(tokens@),
                vtype,
                name: name@,
                args: expressions_view(passed_arguments@),
            }),
    {
        Self { tokens, vtype, name, passed_arguments }
    }

    pub fn name(&self) -> (r: String)
        ensures
            self@ matches ExprView::FunctionCall { name, .. } && r@ == name,
    {
        self.name.clone()
    }

    pub fn passed_arguments(&self) -> (r: VecDeque<Expression>)
        ensures
            self@ matches ExprView::FunctionCall { args, .. } && expressions_view(r@) == args,
    {
        copy_expressions(&self.passed_arguments)
    }
}

impl ExpressionTrait for VariableExpression {
    open spec fn kind() -> ExpressionType {
        ExpressionType::Variable
    }

    fn vtype(&self) -> (r: VType) {
        self.vtype
    }

    fn etype(&self) -> (r: ExpressionType) {
        ExpressionType::Variable
    }

    fn unparse(&self) -> (r: VecDeque<Token>) {
        copy_tokens(&self.tokens)
    }

    fn of_expression(expression: &Expression) -> (r: Option<&Self>) {
        proof {
            lemma_view_of_node(*expression);
        }
        match &expression.expression {
            ExpressionBox::Variable(x) => Some(x),
            _ => None,
        }
    }
}

impl VariableExpression {
    pub fn new(tokens: VecDeque<Token>, vtype: VType, identifier: u16) -> (r: Self)
        ensures
            r@ == (ExprView::Variable { tokens: tokens_view(tokens@), vtype, id: identifier }),
    {
        Self { tokens, vtype, identifier }
    }

    pub fn vtype(&self) -> (r: VType)
        ensures
            self@ matches ExprView::Variable { vtype, .. } && r == vtype,
    {
        self.vtype
    }

    pub fn identifier(&self) -> (r: u16)
        ensures
            self@ matches ExprView::Variable { id, .. } && r == id,
    {
        self.identifier
    }
}

impl ExpressionTrait for ArithmeticExpression {
    open spec fn kind() -> ExpressionType {
        ExpressionType::Arithmetic
    }

    fn vtype(&self) -> (r: VType) {
        self.vtype
    }

    fn etype(&self) -> (r: ExpressionType) {
        ExpressionType::Arithmetic
    }

    fn unparse(&self) -> (r: VecDeque<Token>) {
        copy_tokens(&self.tokens)
    }

    fn of_expression(expression: &Expression) -> (r: Option<&Self>) {
        proof {
            lemma_view_of_node(*expression);
        }
        match &expression.expression {
            ExpressionBox::Arithmetic(x) => Some(&**x),
            _ => None,
        }
    }
}

impl ArithmeticExpression {
    pub fn new(
        tokens: VecDeque<Token>,
        vtype: VType, op: ArithmeticOperation,
        left: Expression,
        right: Expression,
    ) -> (r: Self)
        ensures
            r@ == (ExprView::Arithmetic {
                tokens: tokens_view(tokens@),
                vtype,
                op,
                left: Box::new(left@),
                right: Box::new(right@),
            }),
    {
        Self { tokens, vtype, op, left, right }
    }

    pub fn op(&self) -> (r: ArithmeticOperation)
        ensures
            self@ matches ExprView::Arithmetic { op, .. } && r == op,
    {
        self.op
    }

    pub fn left(&self) -> (r: Expression)
        ensures
            self@ matches ExprView::Arithmetic { left, .. } && r@ == *left,
    {
        self.left.clone()
    }

    pub fn right(&self) -> (r: Expression)
        ensures
            self@ matches ExprView::Arithmetic { right, .. } && r@ == *right,
    {
        self.right.clone()
    }
}

impl ExpressionTrait for ComparisonExpression {
    open spec fn kind() -> ExpressionType {
        ExpressionType::Comparison
    }

    fn vtype(&self) -> (r: VType) {
        VType::Boolean
    }

    fn etype(&self) -> (r: ExpressionType) {
        ExpressionType::Comparison
    }

    fn unparse(&self) -> (r: VecDeque<Token>) {
        copy_tokens(&self.tokens)
    }

    fn of_expression(expression: &Expression) -> (r: Option<&Self>) {
        proof {
            lemma_view_of_node(*expression);
        }
        match &expression.expression {
            ExpressionBox::Comparison(x) => Some(&**x),
            _ => None,
        }
    }
}

impl ComparisonExpression {
    pub fn new(
        tokens: VecDeque<Token>,
        op: ComparisonOperation,
        left: Expression,
        right: Expression,
    ) -> (r: Self)
        ensures
            r@ == (ExprView::Comparison {
                tokens: tokens_view(tokens@),
                op,
                left: Box::new(left@),
                right: Box::new(right@),
            }),
    {
        Self { tokens, op, left, right }
    }

    pub fn op(&self) -> (r: ComparisonOperation)
        ensures
            self@ matches ExprView::Comparison { op, .. } && r == op,
    {
        self.op
    }

    pub fn left(&self) -> (r: Expression)
        ensures
            self@ matches ExprView::Comparison { left, .. } && r@ == *left,
    {
        self.left.clone()
    }

    pub fn right(&self) -> (r: Expression)
        ensures
            self@ matches ExprView::Comparison { right, .. } && r@ == *right,
    {
        self.right.clone()
    }
}

impl ExpressionTrait for BooleanExpression {
    open spec fn kind() -> ExpressionType {
        ExpressionType::Boolean
    }

    fn vtype(&self) -> (r: VType) {
        VType::Boolean
    }

    fn etype(&self) -> (r: ExpressionType) {
        ExpressionType::Boolean
    }

    fn unparse(&self) -> (r: VecDeque<Token>) {
        copy_tokens(&self.tokens)
    }

    fn of_expression(expression: &Expression) -> (r: Option<&Self>) {
        proof {
            lemma_view_of_node(*expression);
        }
        match &expression.expression {
            ExpressionBox::Boolean(x) => Some(&**x),
            _ => None,
        }
    }
}

impl BooleanExpression {
    pub fn new(
        tokens: VecDeque<Token>,
        op: BooleanOperation,
        left: Expression,
        right: Expression,
    ) -> (r: Self)
        ensures
            r@ == (ExprView::Boolean {
                tokens: tokens_view(tokens@),
                op,
                left: Box::new(left@),
                right: Box::new(right@),
            }),
    {
        Self { tokens, op, left, right }
    }

    pub fn op(&self) -> (r: BooleanOperation)
        ensures
            self@ matches ExprView::Boolean { op, .. } && r == op,
    {
        self.op
    }

    pub fn left(&self) -> (r: Expression)
        ensures
            self@ matches ExprView::Boolean { left, .. } && r@ == *left,
    {
        self.left.clone()
    }

    pub fn right(&self) -> (r: Expression)
        ensures
            self@ matches ExprView::Boolean { right, .. } && r@ == *right,
    {
        self.right.clone()
    }
}

impl View for ExpressionBox {
    type V = ExprView;

    open spec fn view(&self) -> ExprView {
        match self {
            ExpressionBox::Literal(x) => x@,
            ExpressionBox::FunctionCall(x) => x@,
            ExpressionBox::Variable(x) => x@,
            ExpressionBox::Arithmetic(x) => x@,
            ExpressionBox::Comparison(x) => x@,
            ExpressionBox::Boolean(x) => x@,
        }
    }
}

impl Expression {
    pub fn virtual_type(&self) -> (r: VType)
        ensures
            r == self@.vtype(),
    {
        proof {
            lemma_view_of_node(*self);
        }
        match &self.expression {
            ExpressionBox::Literal(x) => ExpressionTrait::vtype(x),
            ExpressionBox::FunctionCall(x) => ExpressionTrait::vtype(x),
            ExpressionBox::Variable(x) => ExpressionTrait::vtype(x),
            ExpressionBox::Arithmetic(x) => ExpressionTrait::vtype(&**x),
            ExpressionBox::Comparison(x) => ExpressionTrait::vtype(&**x),
            ExpressionBox::Boolean(x) => ExpressionTrait::vtype(&**x),
        }
    }

    pub fn expression_type(&self) -> (r: ExpressionType)
        ensures
            r == self@.etype(),
    {
        proof {
            lemma_view_of_node(*self);
        }
        match &self.expression {
            ExpressionBox::Literal(x) => x.etype(),
            ExpressionBox::FunctionCall(x) => x.etype(),
            ExpressionBox::Variable(x) => x.etype(),
            ExpressionBox::Arithmetic(x) => x.etype(),
            ExpressionBox::Comparison(x) => x.etype(),
            ExpressionBox::Boolean(x) => x.etype(),
        }
    }

    pub fn new(expression: ExpressionBox) -> (r: Self)
        ensures
            r@ == expression@,
    {
        let r = Self { expression };
        proof {
            lemma_view_of_node(r);
        }
        r
    }

    pub fn new_literal(tokens: VecDeque<Token>, literal: Literal) -> (r: Self)
        ensures
            r@ == (ExprView::Literal { tokens: tokens_view(tokens@), literal: literal@ }),
    {
        Self::new(ExpressionBox::Literal(LiteralExpression::new(tokens, literal)))
    }

    pub fn new_function_call(
        tokens: VecDeque<Token>,
        vtype: VType,
        name: String,
        passed_arguments: VecDeque<Expression>,
    ) -> (r: Self)
        ensures
            r@ == (ExprView::FunctionCall {
                tokens: tokens_view(tokens@),
                vtype,
                name: name@,
                args: expressions_view(passed_arguments@),
            }),
    {
        Self::new(
            ExpressionBox::FunctionCall(
                FunctionCallExpression::new(tokens, vtype, name, passed_arguments),
            ),
        )
    }

    pub fn new_variable(tokens: VecDeque<Token>, vtype: VType, identifier: u16) -> (r: Self)
        ensures
            r@ == (ExprView::Variable { tokens: tokens_view(tokens@), vtype, id: identifier }),
    {
        Self::new(ExpressionBox::Variable(VariableExpression::new(tokens, vtype, identifier)))
    }

    pub fn new_arithmetic(
        tokens: VecDeque<Token>,
        vtype: VType,
        op: ArithmeticOperation,
        left: Expression,
        right: Expression,
    ) -> (r: Self)
        ensures
            r@ == (ExprView::Arithmetic {
                tokens: tokens_view(tokens@),
                vtype,
                op,
                left: Box::new(left@),
                right: Box::new(right@),
            }),
    {
        Self::new(
            ExpressionBox::Arithmetic(Box::new(ArithmeticExpression::new(tokens, vtype, op, left, right))),
        )
    }

    pub fn new_comparison(
        tokens: VecDeque<Token>,
        op: ComparisonOperation,
        left: Expression,
        right: Expression,
    ) -> (r: Self)
        ensures
            r@ == (ExprView::Comparison {
                tokens: tokens_view(tokens@),
                op,
                left: Box::new(left@),
                right: Box::new(right@),
            }),
    {
        Self::new(ExpressionBox::Comparison(Box::new(ComparisonExpression::new(tokens, op, left, right))))
    }

    pub fn new_boolean(
        tokens: VecDeque<Token>,
        op: BooleanOperation,
        left: Expression,
        right: Expression,
    ) -> (r: Self)
        ensures
            r@ == (ExprView::Boolean {
                tokens: tokens_view(tokens@),
                op,
                left: Box::new(left@),
                right: Box::new(right@),
            }),
    {
        Self::new(ExpressionBox::Boolean(Box::new(BooleanExpression::new(tokens, op, left, right))))
    }

    /// The expression's topmost node as one of the kind `T`, if it is one.
    pub fn as_expression<T: ExpressionTrait>(&self) -> (r: Option<&T>)
        ensures
            r is Some <==> self@.etype() == T::kind(),
            r is Some ==> r->0@ == self@,
    {
        T::of_expression(self)
    }
}

} // verus!
