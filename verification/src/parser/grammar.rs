//! What the parser computes, stated as functions on the views of the token
//! stream, the symbol table and the diagnostics.

use vstd::prelude::*;
use crate::ast::expression::ExprView;
use crate::ast::literal::LiteralView;
use crate::ast::statement::StmtView;
use crate::data::ops::ArithmeticOperation;
use crate::data::ops::BooleanOperation;
use crate::data::ops::ComparisonOperation;
use crate::data::syms::Symbol;
use crate::data::syms::symbol_name;
use crate::data::text::decimal;
use crate::data::vtype::ParameterView;
use crate::data::vtype::SignatureView;
use crate::data::vtype::VType;
use crate::parser::lexer::lex_spec;
use crate::parser::symbols_table::TableView;
use crate::parser::token::Payload;
use crate::parser::token::TokenInfo;
use crate::parser::token::TokenView;
use crate::parser::token::payload_type;
use crate::parser::token::token_type_name;

verus! {

// ---------------------------------------------------------------------------
// Diagnostics and recovery
// ---------------------------------------------------------------------------
/// What a diagnostic is: a message, the span it is about, and the source line
/// of that span.
pub struct ErrorView {
    pub message: Seq<char>,
    pub line: usize,
    pub column_begin: usize,
    pub column_end: usize,
    pub context_line: Seq<char>,
}

/// What a parser works on: the source text, the tokens not yet read, the
/// symbol table and the diagnostics recorded so far.
pub struct ContextView {
    pub source: Seq<char>,
    pub tokens: Seq<TokenView>,
    pub table: TableView,
    pub errors: Seq<ErrorView>,
}

/// Where the line that holds position `i` ends: at the next line feed, or at
/// the end of the text.
pub open spec fn line_end(s: Seq<char>, i: int) -> int
    decreases s.len() - i,
{
    if 0 <= i < s.len() && s[i] != '\n' {
        line_end(s, i + 1)
    } else {
        i
    }
}

/// A line ends at or behind where it is entered, and within the text.
pub proof fn lemma_line_end_bounds(s: Seq<char>, i: int)
    requires
        0 <= i <= s.len(),
    ensures
        i <= line_end(s, i) <= s.len(),
    decreases s.len() - i,
{
    if i < s.len() && s[i] != '\n' {
        lemma_line_end_bounds(s, i + 1);
    }
}

/// The text of the line that stands `k` lines after the one that starts at
/// position `i`, without its line feed; empty where the text has no such line.
pub open spec fn line_text(s: Seq<char>, i: int, k: nat) -> Seq<char>
    decreases s.len() - i,
{
    if !(0 <= i <= s.len()) {
        Seq::empty()
    } else {
        let e = line_end(s, i);
        proof {
            lemma_line_end_bounds(s, i);
        }
        if k == 0 {
            s.subrange(i, e)
        } else if e >= s.len() {
            Seq::empty()
        } else {
            line_text(s, e + 1, (k - 1) as nat)
        }
    }
}

/// The text of line `line` of `source`, counted from 1.
pub open spec fn context_line(source: Seq<char>, line: usize) -> Seq<char> {
    if line == 0 {
        Seq::empty()
    } else {
        line_text(source, 0, (line - 1) as nat)
    }
}

/// The diagnostic that says `message` about the span `info`.
pub open spec fn diagnostic(source: Seq<char>, message: Seq<char>, info: TokenInfo) -> ErrorView {
    ErrorView {
        message,
        line: info.line,
        column_begin: info.column_begin,
        column_end: info.column_end,
        context_line: context_line(source, info.line),
    }
}

/// Whether recovery stops after `t`: at a `;` or a `}`.
pub open spec fn is_stop(t: TokenView) -> bool {
    t.is_symbol(Symbol::Semicolon) || t.is_symbol(Symbol::RightBrace)
}

/// What is left of `tokens` after recovery: the tokens behind the first `;` or
/// `}`, or none where there is neither.
pub open spec fn recovered(tokens: Seq<TokenView>) -> Seq<TokenView>
    decreases tokens.len(),
{
    if tokens.len() == 0 {
        tokens
    } else if is_stop(tokens[0]) {
        tokens.skip(1)
    } else {
        recovered(tokens.skip(1))
    }
}

impl ContextView {
    /// The context without its first token.
    pub open spec fn advance(self) -> ContextView {
        ContextView { tokens: self.tokens.skip(1), ..self }
    }

    /// The context with other tokens.
    pub open spec fn with_tokens(self, tokens: Seq<TokenView>) -> ContextView {
        ContextView { tokens, ..self }
    }

    /// The context with another symbol table.
    pub open spec fn with_table(self, table: TableView) -> ContextView {
        ContextView { table, ..self }
    }

    /// The context with other diagnostics.
    pub open spec fn with_errors(self, errors: Seq<ErrorView>) -> ContextView {
        ContextView { errors, ..self }
    }

    /// The context with the diagnostics `errors` added.
    pub open spec fn merge(self, errors: Seq<ErrorView>) -> ContextView {
        ContextView { errors: self.errors + errors, ..self }
    }

    /// The context with one more diagnostic.
    pub open spec fn record(self, message: Seq<char>, info: TokenInfo) -> ContextView {
        ContextView { errors: self.errors.push(diagnostic(self.source, message, info)), ..self }
    }

    /// The context after a fatal error: the diagnostic is recorded and the
    /// token stream recovers.
    pub open spec fn fail(self, message: Seq<char>, info: TokenInfo) -> ContextView {
        ContextView {
            errors: self.errors.push(diagnostic(self.source, message, info)),
            tokens: recovered(self.tokens),
            ..self
        }
    }

    /// A context of its own for the window `tokens`: the same source and
    /// symbol table, and no diagnostics yet.
    pub open spec fn window(self, tokens: Seq<TokenView>) -> ContextView {
        ContextView { source: self.source, tokens, table: self.table, errors: Seq::empty() }
    }
}

// ---------------------------------------------------------------------------
// Windows
// ---------------------------------------------------------------------------
/// The position from `i` on at which the bracket `open`, entered `depth` times
/// before `i`, is closed by `close`; the length of `tokens` where it never
/// is.
pub open spec fn closing(tokens: Seq<TokenView>, open: Symbol, close: Symbol, i: int, depth: nat) -> int
    decreases tokens.len() - i,
{
    if !(0 <= i < tokens.len()) {
        tokens.len() as int
    } else if tokens[i].is_symbol(open) {
        closing(tokens, open, close, i + 1, depth + 1)
    } else if tokens[i].is_symbol(close) {
        if depth <= 1 {
            i
        } else {
            closing(tokens, open, close, i + 1, (depth - 1) as nat)
        }
    } else {
        closing(tokens, open, close, i + 1, depth)
    }
}

/// A bracket is closed at or behind where the search begins, or never.
pub proof fn lemma_closing_bounds(tokens: Seq<TokenView>, open: Symbol, close: Symbol, i: int, depth: nat)
    requires
        0 <= i <= tokens.len(),
    ensures
        i <= closing(tokens, open, close, i, depth) <= tokens.len(),
    decreases tokens.len() - i,
{
    if i < tokens.len() {
        if tokens[i].is_symbol(open) {
            lemma_closing_bounds(tokens, open, close, i + 1, depth + 1);
        } else if tokens[i].is_symbol(close) {
            if depth > 1 {
                lemma_closing_bounds(tokens, open, close, i + 1, (depth - 1) as nat);
            }
        } else {
            lemma_closing_bounds(tokens, open, close, i + 1, depth);
        }
    }
}

/// The position from `i` on of the first token that is the symbol `sym`; the
/// length of `tokens` where there is none.
pub open spec fn symbol_at(tokens: Seq<TokenView>, sym: Symbol, i: int) -> int
    decreases tokens.len() - i,
{
    if !(0 <= i < tokens.len()) {
        tokens.len() as int
    } else if tokens[i].is_symbol(sym) {
        i
    } else {
        symbol_at(tokens, sym, i + 1)
    }
}

/// A symbol is found at or behind where the search begins, or never.
pub proof fn lemma_symbol_at_bounds(tokens: Seq<TokenView>, sym: Symbol, i: int)
    requires
        0 <= i <= tokens.len(),
    ensures
        i <= symbol_at(tokens, sym, i) <= tokens.len(),
    decreases tokens.len() - i,
{
    if i < tokens.len() && !tokens[i].is_symbol(sym) {
        lemma_symbol_at_bounds(tokens, sym, i + 1);
    }
}

/// The position from `i` on of the first `,` that stands inside no
/// parentheses, `depth` of which are open at `i`; the length of `tokens` where
/// there is none.
pub open spec fn comma_at(tokens: Seq<TokenView>, i: int, depth: nat) -> int
    decreases tokens.len() - i,
{
    if !(0 <= i < tokens.len()) {
        tokens.len() as int
    } else if tokens[i].is_symbol(Symbol::LeftParen) {
        comma_at(tokens, i + 1, depth + 1)
    } else if tokens[i].is_symbol(Symbol::RightParen) {
        comma_at(
            tokens,
            i + 1,
            if depth == 0 {
                0
            } else {
                (depth - 1) as nat
            },
        )
    } else if depth == 0 && tokens[i].is_symbol(Symbol::Comma) {
        i
    } else {
        comma_at(tokens, i + 1, depth)
    }
}

/// A `,` is found at or behind where the search begins, or never.
pub proof fn lemma_comma_at_bounds(tokens: Seq<TokenView>, i: int, depth: nat)
    requires
        0 <= i <= tokens.len(),
    ensures
        i <= comma_at(tokens, i, depth) <= tokens.len(),
    decreases tokens.len() - i,
{
    if i < tokens.len() {
        if tokens[i].is_symbol(Symbol::LeftParen) {
            lemma_comma_at_bounds(tokens, i + 1, depth + 1);
        } else if tokens[i].is_symbol(Symbol::RightParen) {
            lemma_comma_at_bounds(
                tokens,
                i + 1,
                if depth == 0 {
                    0
                } else {
                    (depth - 1) as nat
                },
            );
        } else if depth == 0 && tokens[i].is_symbol(Symbol::Comma) {
        } else {
            lemma_comma_at_bounds(tokens, i + 1, depth);
        }
    }
}

/// The first argument window of `tokens`: what stands before the first `,`
/// that is inside no parentheses.
pub open spec fn first_argument(tokens: Seq<TokenView>) -> Seq<TokenView> {
    tokens.take(comma_at(tokens, 0, 0))
}

/// What follows the first argument window of `tokens` and its `,`.
pub open spec fn later_arguments(tokens: Seq<TokenView>) -> Seq<TokenView> {
    let k = comma_at(tokens, 0, 0);
    if k >= tokens.len() {
        Seq::empty()
    } else {
        tokens.skip(k + 1)
    }
}

/// The number of argument windows of `tokens`: one for each `,` that is
/// inside no parentheses, and one more where tokens follow the last of them.
pub open spec fn argument_count(tokens: Seq<TokenView>) -> nat
    decreases tokens.len(),
{
    if tokens.len() == 0 {
        0
    } else {
        proof {
            lemma_comma_at_bounds(tokens, 0, 0);
        }
        1 + argument_count(later_arguments(tokens))
    }
}

// ---------------------------------------------------------------------------
// Expressions
// ---------------------------------------------------------------------------
/// The binary operators, as the expression parser stacks them.
#[derive(Clone, Copy, Debug, PartialEq, Eq, Structural)]
pub enum Operator {
    Add,
    Sub,
    Mul,
    Div,
    Eq,
    Neq,
    Gt,
    Gte,
    Lt,
    Lte,
    And,
    Or,
}

/// How tightly an operator binds; all operators associate to the left.
pub open spec fn precedence(op: Operator) -> u8 {
    match op {
        Operator::Mul | Operator::Div => 3,
        Operator::Add | Operator::Sub => 2,
        Operator::Gt | Operator::Gte | Operator::Lt | Operator::Lte | Operator::Eq | Operator::Neq => 1,
        Operator::And | Operator::Or => 0,
    }
}

/// The operator that a token stands for, if it stands for one.
pub open spec fn operator_of(p: Payload) -> Option<Operator> {
    match p {
        Payload::Arithmetic(ArithmeticOperation::Add) => Some(Operator::Add),
        Payload::Arithmetic(ArithmeticOperation::Subtract) => Some(Operator::Sub),
        Payload::Arithmetic(ArithmeticOperation::Multiply) => Some(Operator::Mul),
        Payload::Arithmetic(ArithmeticOperation::Divide) => Some(Operator::Div),
        Payload::Comparison(ComparisonOperation::IsEqual) => Some(Operator::Eq),
        Payload::Comparison(ComparisonOperation::IsNotEqual) => Some(Operator::Neq),
        Payload::Comparison(ComparisonOperation::IsGreater) => Some(Operator::Gt),
        Payload::Comparison(ComparisonOperation::IsGreaterOrEqual) => Some(Operator::Gte),
        Payload::Comparison(ComparisonOperation::IsLess) => Some(Operator::Lt),
        Payload::Comparison(ComparisonOperation::IsLessOrEqual) => Some(Operator::Lte),
        Payload::Boolean(BooleanOperation::And) => Some(Operator::And),
        Payload::Boolean(BooleanOperation::Or) => Some(Operator::Or),
        _ => None,
    }
}

/// The node that applies `op` to `left` and `right`. An arithmetic node has
/// the type `Integer`.
pub open spec fn binary_node(op: Operator, tokens: Seq<TokenView>, left: ExprView, right: ExprView) -> ExprView {
    let l = Box::new(left);
    let r = Box::new(right);
    match op {
        Operator::Add => ExprView::Arithmetic {
            tokens,
            vtype: VType::Integer,
            op: ArithmeticOperation::Add,
            left: l,
            right: r,
        },
        Operator::Sub => ExprView::Arithmetic {
            tokens,
            vtype: VType::Integer,
            op: ArithmeticOperation::Subtract,
            left: l,
            right: r,
        },
        Operator::Mul => ExprView::Arithmetic {
            tokens,
            vtype: VType::Integer,
            op: ArithmeticOperation::Multiply,
            left: l,
            right: r,
        },
        Operator::Div => ExprView::Arithmetic {
            tokens,
            vtype: VType::Integer,
            op: ArithmeticOperation::Divide,
            left: l,
            right: r,
        },
        Operator::Eq => ExprView::Comparison {
            tokens,
            op: ComparisonOperation::IsEqual,
            left: l,
            right: r,
        },
        Operator::Neq => ExprView::Comparison {
            tokens,
            op: ComparisonOperation::IsNotEqual,
            left: l,
            right: r,
        },
        Operator::Gt => ExprView::Comparison {
            tokens,
            op: ComparisonOperation::IsGreater,
            left: l,
            right: r,
        },
        Operator::Gte => ExprView::Comparison {
            tokens,
            op: ComparisonOperation::IsGreaterOrEqual,
            left: l,
            right: r,
        },
        Operator::Lt => ExprView::Comparison {
            tokens,
            op: ComparisonOperation::IsLess,
            left: l,
            right: r,
        },
        Operator::Lte => ExprView::Comparison {
            tokens,
            op: ComparisonOperation::IsLessOrEqual,
            left: l,
            right: r,
        },
        Operator::And => ExprView::Boolean { tokens, op: BooleanOperation::And, left: l, right: r },
        Operator::Or => ExprView::Boolean { tokens, op: BooleanOperation::Or, left: l, right: r },
    }
}

/// The two stacks of the expression parser, and the tokens read since the
/// last node was completed.
pub struct ShuntView {
    pub pending: Seq<TokenView>,
    pub output: Seq<ExprView>,
    pub operators: Seq<Operator>,
}

/// What is said where an operator finds `present` operands on the output
/// stack and needs two.
pub open spec fn missing_operand(present: nat) -> Seq<char> {
    if present == 0 {
        "Missing RHS expression"@
    } else {
        "Missing LHS expression"@
    }
}

impl ShuntView {
    pub open spec fn empty() -> ShuntView {
        ShuntView { pending: Seq::empty(), output: Seq::empty(), operators: Seq::empty() }
    }

    /// The state after the token `t` was read.
    pub open spec fn read(self, t: TokenView) -> ShuntView {
        ShuntView { pending: self.pending.push(t), ..self }
    }

    /// The state after the tokens `ts` were read.
    pub open spec fn read_all(self, ts: Seq<TokenView>) -> ShuntView {
        ShuntView { pending: self.pending + ts, ..self }
    }

    /// The state after a completed operand was pushed: it took the pending
    /// tokens with it.
    pub open spec fn operand(self, e: ExprView) -> ShuntView {
        ShuntView { pending: Seq::empty(), output: self.output.push(e), ..self }
    }

    /// The state after a parenthesised operand was pushed: the pending tokens
    /// stay.
    pub open spec fn group(self, e: ExprView) -> ShuntView {
        ShuntView { output: self.output.push(e), ..self }
    }

    pub open spec fn push_operator(self, op: Operator) -> ShuntView {
        ShuntView { operators: self.operators.push(op), ..self }
    }

    /// The state after the topmost operator was applied to the two topmost
    /// operands, the right one on top.
    pub open spec fn reduce(self) -> ShuntView
        recommends
            self.operators.len() > 0,
            self.output.len() >= 2,
    {
        let n = self.output.len();
        ShuntView {
            pending: Seq::empty(),
            output: self.output.take(n - 2).push(
                binary_node(self.operators.last(), self.pending, self.output[n - 2], self.output[n - 1]),
            ),
            operators: self.operators.drop_last(),
        }
    }

    /// The state after every operator on top of the stack that binds at least
    /// as tightly as `prec` was applied, or what is said where one of them
    /// lacks an operand.
    pub open spec fn reduce_above(self, prec: u8) -> Result<ShuntView, Seq<char>>
        decreases self.operators.len(),
    {
        if self.operators.len() == 0 || precedence(self.operators.last()) < prec {
            Ok(self)
        } else if self.output.len() < 2 {
            Err(missing_operand(self.output.len()))
        } else {
            self.reduce().reduce_above(prec)
        }
    }
}

/// What a parse of an expression gives: the context after it, and the
/// expression unless the parse failed.
pub struct ExprOutcome {
    pub ctx: ContextView,
    pub result: Option<ExprView>,
}

/// What a parse of an argument list gives: the diagnostics of the argument
/// parses, the arguments unless one of them failed, and the span to which the
/// failure is pinned.
pub struct ArgsOutcome {
    pub errors: Seq<ErrorView>,
    pub result: Option<Seq<ExprView>>,
    pub anchor: TokenInfo,
}

/// The outcome of a parse of an expression that failed and left `ctx`.
pub open spec fn expr_failure(ctx: ContextView) -> ExprOutcome {
    ExprOutcome { ctx, result: None }
}

/// What is said of a call of a function that has no signature.
pub open spec fn msg_unknown_function(name: Seq<char>) -> Seq<char> {
    "function `"@ + name + "` not declared in the current module"@
}

/// What is said of a name that the innermost scope does not bind.
pub open spec fn msg_unknown_identifier(name: Seq<char>) -> Seq<char> {
    "identifier `"@ + name + "` not declared in the current scope"@
}

/// What is said where the symbol `expected` should stand and the symbol
/// `got` does; `before` and `middle` tell the place.
pub open spec fn msg_expected_symbol(before: Seq<char>, expected: Symbol, middle: Seq<char>, got: Symbol) -> Seq<char> {
    before + symbol_name(expected) + middle + symbol_name(got) + "`"@
}

/// What is said of a call that passes `got` arguments to a function of
/// `expected` parameters.
pub open spec fn msg_arity(expected: nat, got: nat) -> Seq<char> {
    "mismatched argument length, expected "@ + decimal(expected) + ", got "@ + decimal(got)
}

/// What is said where `got` operands remain at the end of an expression and
/// one should.
pub open spec fn msg_stack(got: nat) -> Seq<char> {
    "shunting yard algorithm failed, stack expected to finish with one expression, got "@ + decimal(
        got,
    )
}

/// What is said of a token that must not stand at the place that `place`
/// tells.
pub open spec fn msg_unexpected_token(payload: Payload, place: Seq<char>) -> Seq<char> {
    "unexpected token `"@ + token_type_name(payload_type(payload)) + place
}

/// The expression that the tokens of `ctx` form.
///
/// An empty window gives no expression and no diagnostic. Otherwise the tokens
/// are read from left to right onto two stacks, and a failure is pinned to the
/// token named with each rule, or to the first token of the window where
/// operands are missing or left over.
pub open spec fn parse_expression_spec(ctx: ContextView) -> ExprOutcome
    decreases ctx.tokens.len(), 1int,
{
    if ctx.tokens.len() == 0 {
        expr_failure(ctx)
    } else {
        expression_loop(ctx, ShuntView::empty(), ctx.tokens[0].info)
    }
}

/// The rest of the parse of an expression, from the stacks `st` on.
pub open spec fn expression_loop(ctx: ContextView, st: ShuntView, anchor: TokenInfo) -> ExprOutcome
    decreases ctx.tokens.len(), 0int,
{
    if ctx.tokens.len() == 0 {
        expression_end(ctx, st, anchor)
    } else {
        let t = ctx.tokens[0];
        let rest = ctx.advance();
        let read = st.read(t);
        match t.payload {
            Payload::IntegerLiteral(value) => expression_loop(
                rest,
                read.operand(
                    ExprView::Literal { tokens: read.pending, literal: LiteralView::Integer(value) },
                ),
                anchor,
            ),
            Payload::BooleanLiteral(value) => expression_loop(
                rest,
                read.operand(
                    ExprView::Literal { tokens: read.pending, literal: LiteralView::Boolean(value) },
                ),
                anchor,
            ),
            Payload::Arithmetic(_) | Payload::Comparison(_) | Payload::Boolean(_) => {
                let op = operator_of(t.payload)->0;
                match read.reduce_above(precedence(op)) {
                    Ok(reduced) => expression_loop(rest, reduced.push_operator(op), anchor),
                    Err(message) => expr_failure(rest.fail(message, anchor)),
                }
            },
            Payload::Symbol(Symbol::LeftParen) => {
                let k = closing(rest.tokens, Symbol::LeftParen, Symbol::RightParen, 0, 1);
                if k >= rest.tokens.len() {
                    expr_failure(
                        rest.with_tokens(Seq::empty()).fail(
                            "no close parenthesis found for expression"@,
                            t.info,
                        ),
                    )
                } else {
                    proof {
                        lemma_closing_bounds(rest.tokens, Symbol::LeftParen, Symbol::RightParen, 0, 1);
                    }
                    let inner = parse_expression_spec(rest.window(rest.tokens.take(k)));
                    let after = rest.with_tokens(rest.tokens.skip(k + 1)).merge(inner.ctx.errors);
                    match inner.result {
                        Some(e) => expression_loop(
                            after,
                            read.read_all(rest.tokens.take(k + 1)).group(e),
                            anchor,
                        ),
                        None => expr_failure(after.fail("no inner expression parsed"@, t.info)),
                    }
                }
            },
            Payload::Symbol(Symbol::RightParen) => expr_failure(
                rest.fail("expected a matched right parenthesis"@, t.info),
            ),
            Payload::Symbol(sym) => expr_failure(
                rest.fail(
                    msg_expected_symbol(
                        "expected symbol `"@,
                        Symbol::LeftParen,
                        "` at beginsing of expression, got `"@,
                        sym,
                    ),
                    t.info,
                ),
            ),
            Payload::Identifier(name) => {
                if name == "invoke"@ {
                    match call_head(rest, read) {
                        CallHead::Failed { ctx: failed } => expr_failure(failed),
                        CallHead::Found { name: callee, signature, begin, inner, after, tokens } => {
                            proof {
                                lemma_call_head_shorter(rest, read);
                            }
                            let args = parse_arguments_spec(after.window(inner), begin);
                            let merged = after.merge(args.errors);
                            match args.result {
                                Some(passed) => expression_loop(
                                    merged,
                                    read.operand(
                                        ExprView::FunctionCall {
                                            tokens,
                                            vtype: signature.return_type,
                                            name: callee,
                                            args: passed,
                                        },
                                    ),
                                    anchor,
                                ),
                                None => expr_failure(
                                    merged.fail("no expression parsed for argument"@, args.anchor),
                                ),
                            }
                        },
                    }
                } else {
                    match (ctx.table.get_id(name), ctx.table.lookup(name)) {
                        (Some(id), Some(vtype)) => expression_loop(
                            rest,
                            read.operand(ExprView::Variable { tokens: read.pending, vtype, id }),
                            anchor,
                        ),
                        _ => expr_failure(rest.fail(msg_unknown_identifier(name), t.info)),
                    }
                }
            },
            Payload::Type(_) => expr_failure(
                rest.fail(msg_unexpected_token(t.payload, "` in expression"@), t.info),
            ),
        }
    }
}

/// The end of the parse of an expression: the operators left on the stack are
/// applied, and exactly one operand must remain.
pub open spec fn expression_end(ctx: ContextView, st: ShuntView, anchor: TokenInfo) -> ExprOutcome {
    match st.reduce_above(0) {
        Ok(reduced) => {
            if reduced.output.len() == 1 {
                ExprOutcome { ctx, result: Some(reduced.output[0]) }
            } else {
                expr_failure(ctx.fail(msg_stack(reduced.output.len()), anchor))
            }
        },
        Err(message) => expr_failure(ctx.fail(message, anchor)),
    }
}

/// What the head of a call gives: the context after a failure, or else the
/// callee, the window of its arguments, and the context behind the closing
/// parenthesis.
pub enum CallHead {
    Failed { ctx: ContextView },
    Found {
        name: Seq<char>,
        signature: SignatureView,
        begin: TokenInfo,
        inner: Seq<TokenView>,
        after: ContextView,
        tokens: Seq<TokenView>,
    },
}

/// The head of the call that follows the word `invoke`: the name of a
/// registered function, then in parentheses as many argument windows as the
/// function has parameters. `ctx` starts behind `invoke`, and `st` has read it.
pub open spec fn call_head(ctx: ContextView, st: ShuntView) -> CallHead {
    let invoke = st.pending.last();
    if ctx.tokens.len() == 0 {
        CallHead::Failed {
            ctx: ctx.fail("tokens should not end here, expected an identifier token"@, invoke.info),
        }
    } else {
        let name_token = ctx.tokens[0];
        let c1 = ctx.advance();
        match name_token.payload {
            Payload::Identifier(name) => {
                match ctx.table.get_function(name) {
                    None => CallHead::Failed {
                        ctx: c1.fail(msg_unknown_function(name), name_token.info),
                    },
                    Some(signature) => {
                        if c1.tokens.len() == 0 {
                            CallHead::Failed {
                                ctx: c1.fail(
                                    "tokens should not end here, expected a symbol token"@,
                                    name_token.info,
                                ),
                            }
                        } else {
                            let begin = c1.tokens[0];
                            let c2 = c1.advance();
                            match begin.payload {
                                Payload::Symbol(Symbol::LeftParen) => {
                                    let k = closing(
                                        c2.tokens,
                                        Symbol::LeftParen,
                                        Symbol::RightParen,
                                        0,
                                        1,
                                    );
                                    if k >= c2.tokens.len() {
                                        CallHead::Failed {
                                            ctx: c2.with_tokens(Seq::empty()).fail(
                                                "no close function param list"@,
                                                begin.info,
                                            ),
                                        }
                                    } else {
                                        let inner = c2.tokens.take(k);
                                        let after = c2.with_tokens(c2.tokens.skip(k + 1));
                                        let count = argument_count(inner);
                                        if count != signature.parameters.len() {
                                            CallHead::Failed {
                                                ctx: after.fail(
                                                    msg_arity(signature.parameters.len(), count),
                                                    begin.info,
                                                ),
                                            }
                                        } else {
                                            CallHead::Found {
                                                name,
                                                signature,
                                                begin: begin.info,
                                                inner,
                                                after,
                                                tokens: st.pending.push(name_token).push(begin)
                                                    + c2.tokens.take(k + 1) + inner,
                                            }
                                        }
                                    }
                                },
                                Payload::Symbol(sym) => CallHead::Failed {
                                    ctx: c2.fail(
                                        msg_expected_symbol(
                                            "expected symbol `"@,
                                            Symbol::LeftParen,
                                            "` to begin param list, got `"@,
                                            sym,
                                        ),
                                        begin.info,
                                    ),
                                },
                                _ => CallHead::Failed {
                                    ctx: c2.fail(
                                        "expected a symbol token to begin param list"@,
                                        begin.info,
                                    ),
                                },
                            }
                        }
                    },
                }
            },
            _ => CallHead::Failed {
                ctx: c1.fail("expected identifier token after `invoke`"@, name_token.info),
            },
        }
    }
}

/// The argument window of a call and what follows the call are shorter than
/// what follows `invoke`.
pub proof fn lemma_call_head_shorter(ctx: ContextView, st: ShuntView)
    ensures
        call_head(ctx, st) matches CallHead::Found { inner, after, .. } ==> inner.len()
            < ctx.tokens.len() && after.tokens.len() < ctx.tokens.len() && after.source
            == ctx.source && after.table == ctx.table && after.errors == ctx.errors,
{
    if ctx.tokens.len() >= 2 {
        lemma_closing_bounds(ctx.tokens.skip(1).skip(1), Symbol::LeftParen, Symbol::RightParen, 0, 1);
    }
}

/// The call that follows the word `invoke`, with its arguments parsed: the
/// context behind the call and the call's node, or the context after the
/// failure.
pub open spec fn call_outcome(ctx: ContextView, st: ShuntView) -> ExprOutcome {
    match call_head(ctx, st) {
        CallHead::Failed { ctx: failed } => expr_failure(failed),
        CallHead::Found { name, signature, begin, inner, after, tokens } => {
            let args = parse_arguments_spec(after.window(inner), begin);
            let merged = after.merge(args.errors);
            match args.result {
                Some(passed) => ExprOutcome {
                    ctx: merged,
                    result: Some(
                        ExprView::FunctionCall {
                            tokens,
                            vtype: signature.return_type,
                            name,
                            args: passed,
                        },
                    ),
                },
                None => expr_failure(merged.fail("no expression parsed for argument"@, args.anchor)),
            }
        },
    }
}

/// The arguments that the tokens of `ctx` form, window by window. The parse
/// stops at the first window that gives no expression; that failure is pinned
/// to the window's first token, or to `fallback` where the window is empty.
pub open spec fn parse_arguments_spec(ctx: ContextView, fallback: TokenInfo) -> ArgsOutcome
    decreases ctx.tokens.len(), 2int,
{
    if ctx.tokens.len() == 0 {
        ArgsOutcome { errors: ctx.errors, result: Some(Seq::empty()), anchor: fallback }
    } else {
        proof {
            lemma_comma_at_bounds(ctx.tokens, 0, 0);
        }
        let window = first_argument(ctx.tokens);
        let first = parse_expression_spec(ctx.window(window));
        let errors = ctx.errors + first.ctx.errors;
        match first.result {
            None => ArgsOutcome {
                errors,
                result: None,
                anchor: if window.len() == 0 {
                    fallback
                } else {
                    window[0].info
                },
            },
            Some(e) => {
                let later = parse_arguments_spec(
                    ctx.with_tokens(later_arguments(ctx.tokens)).with_errors(errors),
                    fallback,
                );
                ArgsOutcome {
                    errors: later.errors,
                    result: match later.result {
                        Some(es) => Some(seq![e] + es),
                        None => None,
                    },
                    anchor: later.anchor,
                }
            },
        }
    }
}

// ---------------------------------------------------------------------------
// Statements
// ---------------------------------------------------------------------------
/// What a parse of a statement gives: the context after it, and the statement
/// unless the parse failed.
pub struct StmtOutcome {
    pub ctx: ContextView,
    pub result: Option<StmtView>,
}

/// What a parse of a run of statements gives: the context after it and the
/// statements that were parsed.
pub struct BlockOutcome {
    pub ctx: ContextView,
    pub statements: Seq<StmtView>,
}

/// What reading the expression of a statement gives: the context behind the
/// `;`, the tokens read, the expression unless its parse failed, and whether
/// nothing stood before the `;`.
pub struct WindowOutcome {
    pub ctx: ContextView,
    pub read: Seq<TokenView>,
    pub result: Option<ExprView>,
    pub empty: bool,
}

/// The outcome of a parse of a statement that failed and left `ctx`.
pub open spec fn stmt_failure(ctx: ContextView) -> StmtOutcome {
    StmtOutcome { ctx, result: None }
}

/// What is said of a statement that stands where it may not.
pub open spec fn msg_not_allowed(keyword: Seq<char>) -> Seq<char> {
    "`"@ + keyword + "` statement is not allowed here"@
}

/// What is said of a statement whose expression could not be parsed.
pub open spec fn msg_no_expression(keyword: Seq<char>) -> Seq<char> {
    "no expression parsed for `"@ + keyword + "` statement"@
}

/// What is said of a name for which no id is left to mint.
pub open spec fn msg_no_id(name: Seq<char>) -> Seq<char> {
    "identifier `"@ + name + "` cannot be declared, no id is left"@
}

/// What is said of a function whose name has a signature already.
pub open spec fn msg_already_defined(name: Seq<char>) -> Seq<char> {
    "Function "@ + name + " already defined"@
}

/// The expression that stands before the first `;` of `ctx`, parsed in a
/// context of its own, whose diagnostics are taken over. The `;` is read too;
/// where there is none, everything is read.
pub open spec fn expression_window(ctx: ContextView) -> WindowOutcome {
    let k = symbol_at(ctx.tokens, Symbol::Semicolon, 0);
    let ended = k < ctx.tokens.len();
    let parsed = parse_expression_spec(ctx.window(ctx.tokens.take(k)));
    WindowOutcome {
        ctx: ctx.with_tokens(
            if ended {
                ctx.tokens.skip(k + 1)
            } else {
                Seq::empty()
            },
        ).merge(parsed.ctx.errors),
        read: if ended {
            ctx.tokens.take(k + 1)
        } else {
            ctx.tokens
        },
        result: parsed.result,
        empty: k == 0,
    }
}

/// What taking an expected token gives.
pub enum Taken {
    Missing { ctx: ContextView },
    Token { token: TokenView, ctx: ContextView },
}

/// The first token of `ctx`; where there is none, the parse fails with
/// `message` about `anchor`.
pub open spec fn take_token(ctx: ContextView, message: Seq<char>, anchor: TokenInfo) -> Taken {
    if ctx.tokens.len() == 0 {
        Taken::Missing { ctx: ctx.fail(message, anchor) }
    } else {
        Taken::Token { token: ctx.tokens[0], ctx: ctx.advance() }
    }
}

/// What a parse of a parameter list gives: the context after it, the tokens
/// read again, the parameters, and whether the parse succeeded.
pub struct ParamsOutcome {
    pub ctx: ContextView,
    pub read: Seq<TokenView>,
    pub parameters: Seq<ParameterView>,
    pub ok: bool,
}

/// The outcome of a parse of parameters that failed and left `ctx`.
pub open spec fn params_failure(ctx: ContextView) -> ParamsOutcome {
    ParamsOutcome { ctx, read: Seq::empty(), parameters: Seq::empty(), ok: false }
}

/// The parameters that `window` holds: entries of a name and a type, with a
/// `,` between two entries. Each parameter is bound in the innermost scope of
/// `ctx`, to which a failure is charged.
pub open spec fn parse_parameters_spec(
    ctx: ContextView,
    window: Seq<TokenView>,
    read: Seq<TokenView>,
    parameters: Seq<ParameterView>,
) -> ParamsOutcome
    decreases window.len(),
{
    if window.len() == 0 {
        ParamsOutcome { ctx, read, parameters, ok: true }
    } else {
        let name_token = window[0];
        match name_token.payload {
            Payload::Identifier(name) => {
                if window.len() < 2 {
                    params_failure(
                        ctx.fail("tokens should not end here, expected a type token"@, name_token.info),
                    )
                } else {
                    let type_token = window[1];
                    match type_token.payload {
                        Payload::Type(vtype) => {
                            let separator = parameter_separator(window);
                            if separator is Some {
                                params_failure(ctx.fail(separator->0, window[2].info))
                            } else if !ctx.table.can_define() {
                                params_failure(ctx.fail(msg_no_id(name), name_token.info))
                            } else {
                                parse_parameters_spec(
                                    ctx.with_table(ctx.table.define(name, vtype)),
                                    window.skip(
                                        if window.len() == 2 {
                                            2
                                        } else {
                                            3
                                        },
                                    ),
                                    if window.len() == 2 {
                                        read.push(type_token)
                                    } else {
                                        read.push(type_token).push(window[2])
                                    },
                                    parameters.push(
                                        ParameterView { id: ctx.table.next_id, vtype },
                                    ),
                                )
                            }
                        },
                        _ => params_failure(
                            ctx.fail(
                                "expected type token after param identifier `"@ + name + "`"@,
                                type_token.info,
                            ),
                        ),
                    }
                }
            },
            _ => params_failure(ctx.fail("expected identifier token"@, name_token.info)),
        }
    }
}

/// What is wrong with the token behind the first entry of `window`, if there
/// is one and anything is: it must be a `,`, and an entry must follow it.
pub open spec fn parameter_separator(window: Seq<TokenView>) -> Option<Seq<char>> {
    if window.len() <= 2 {
        None
    } else {
        match window[2].payload {
            Payload::Symbol(Symbol::Comma) => {
                if window.len() == 3 {
                    Some("tokens should not end here, expected an identifier token"@)
                } else {
                    None
                }
            },
            Payload::Symbol(sym) => Some(
                msg_expected_symbol(
                    "expected symbol `"@,
                    Symbol::Comma,
                    "` to end param entry, got `"@,
                    sym,
                ),
            ),
            p => Some(
                "expected symbol token after param type, got `"@ + token_type_name(payload_type(p))
                    + "`"@,
            ),
        }
    }
}

/// What the head of a function statement gives: the context after a failure;
/// or the declaration, complete; or the signature of a definition, with the
/// context behind the `{` of its body.
pub enum Header {
    Failed { ctx: ContextView },
    Declared { ctx: ContextView, tokens: Seq<TokenView>, signature: SignatureView },
    Opened { ctx: ContextView, brace: TokenView, tokens: Seq<TokenView>, signature: SignatureView },
}

/// The context after a failure inside a function's head: the function's own
/// scope is left.
pub open spec fn leave(ctx: ContextView) -> Header {
    Header::Failed { ctx: ctx.with_table(ctx.table.pop_scope()) }
}

/// The head of the function statement whose keyword `keyword` was read:
/// a name, the parameters in parentheses, the return type, and a `;` or a
/// `{`.
///
/// Allowed only where one scope is open. The parameters are bound in a scope
/// of the function's own, which a declaration and a failure leave again. The
/// name must have no signature yet; where it has one, the diagnostic says so
/// and all tokens are dropped. The signature is registered with the `;` or
/// the `{`.
pub open spec fn function_header(ctx: ContextView, keyword: TokenView) -> Header {
    if ctx.table.depth() != 1 {
        Header::Failed {
            ctx: ctx.fail("function declaration or definition is not allowed here"@, keyword.info),
        }
    } else {
        match take_token(
            ctx,
            "tokens should not end here, expected an identifier token"@,
            keyword.info,
        ) {
            Taken::Missing { ctx: failed } => Header::Failed { ctx: failed },
            Taken::Token { token: name_token, ctx: c1 } => match name_token.payload {
                Payload::Identifier(name) => match take_token(
                    c1,
                    "tokens should not end here, expected a symbol token"@,
                    name_token.info,
                ) {
                    Taken::Missing { ctx: failed } => Header::Failed { ctx: failed },
                    Taken::Token { token: open, ctx: c2 } => match open.payload {
                        Payload::Symbol(Symbol::LeftParen) => function_signature(
                            c2,
                            seq![keyword, name_token, open],
                            name_token,
                            name,
                        ),
                        Payload::Symbol(sym) => Header::Failed {
                            ctx: c2.fail(
                                msg_expected_symbol(
                                    "expected symbol `"@,
                                    Symbol::LeftParen,
                                    "` to begin parameter list in function signature, got `"@,
                                    sym,
                                ),
                                open.info,
                            ),
                        },
                        _ => Header::Failed {
                            ctx: c2.fail(
                                "expected a symbol token after function identifier in signature"@,
                                open.info,
                            ),
                        },
                    },
                },
                _ => Header::Failed {
                    ctx: c1.fail("expected identifier token after `function`"@, name_token.info),
                },
            },
        }
    }
}

/// The rest of a function's head from behind the `(` on; `read` holds the
/// tokens read so far.
pub open spec fn function_signature(
    ctx: ContextView,
    read: Seq<TokenView>,
    name_token: TokenView,
    name: Seq<char>,
) -> Header {
    let k = symbol_at(ctx.tokens, Symbol::RightParen, 0);
    let closed = k < ctx.tokens.len();
    let behind = ctx.with_tokens(
        if closed {
            ctx.tokens.skip(k + 1)
        } else {
            Seq::empty()
        },
    ).with_table(ctx.table.push_scope());
    let read_list = read + (if closed {
        ctx.tokens.take(k + 1)
    } else {
        ctx.tokens
    });
    let list = parse_parameters_spec(behind, ctx.tokens.take(k), read_list, Seq::empty());
    if !list.ok {
        leave(list.ctx)
    } else {
        match take_token(
            list.ctx,
            "tokens should not end here, expected a type token"@,
            name_token.info,
        ) {
            Taken::Missing { ctx: failed } => leave(failed),
            Taken::Token { token: type_token, ctx: c1 } => match type_token.payload {
                Payload::Type(return_type) => {
                    let signature = SignatureView { name, return_type, parameters: list.parameters };
                    if c1.table.get_function(name) is Some {
                        leave(
                            c1.with_tokens(Seq::empty()).record(
                                msg_already_defined(name),
                                name_token.info,
                            ),
                        )
                    } else {
                        match take_token(
                            c1,
                            "tokens should not end here, expected a symbol token"@,
                            name_token.info,
                        ) {
                            Taken::Missing { ctx: failed } => leave(failed),
                            Taken::Token { token: last, ctx: c2 } => {
                                let tokens = list.read.push(type_token).push(last);
                                match last.payload {
                                    Payload::Symbol(Symbol::Semicolon) => Header::Declared {
                                        ctx: c2.with_table(
                                            c2.table.define_function(signature).pop_scope(),
                                        ),
                                        tokens,
                                        signature,
                                    },
                                    Payload::Symbol(Symbol::LeftBrace) => Header::Opened {
                                        ctx: c2.with_table(c2.table.define_function(signature)),
                                        brace: last,
                                        tokens,
                                        signature,
                                    },
                                    Payload::Symbol(sym) => leave(
                                        c2.fail(
                                            "expected symbol `"@ + symbol_name(Symbol::Semicolon)
                                                + "` or `"@ + symbol_name(Symbol::LeftBrace)
                                                + "` after function signature, got `"@
                                                + symbol_name(sym) + "`"@,
                                            last.info,
                                        ),
                                    ),
                                    _ => leave(
                                        c2.fail(
                                            "expected a symbol token after function signature"@,
                                            last.info,
                                        ),
                                    ),
                                }
                            },
                        }
                    }
                },
                _ => leave(
                    c1.fail(
                        "expected type token to end function signature with identifier `"@ + name
                            + "`"@,
                        type_token.info,
                    ),
                ),
            },
        }
    }
}

/// The statement `return`, with or without an expression.
pub open spec fn parse_return_spec(ctx: ContextView, keyword: TokenView) -> StmtOutcome {
    if ctx.table.depth() == 1 {
        stmt_failure(ctx.fail(msg_not_allowed("return"@), keyword.info))
    } else {
        let w = expression_window(ctx);
        let tokens = seq![keyword] + w.read;
        if w.empty {
            StmtOutcome {
                ctx: ctx.with_tokens(w.ctx.tokens),
                result: Some(StmtView::FunctionReturn { tokens, expression: None }),
            }
        } else {
            match w.result {
                Some(e) => StmtOutcome {
                    ctx: w.ctx,
                    result: Some(StmtView::FunctionReturn { tokens, expression: Some(e) }),
                },
                None => stmt_failure(w.ctx.fail(msg_no_expression("return"@), keyword.info)),
            }
        }
    }
}

/// The statements `print` and `express`: the keyword, an expression and a
/// `;`.
pub open spec fn parse_plain_spec(ctx: ContextView, keyword: TokenView, word: Seq<char>) -> StmtOutcome {
    if ctx.table.depth() == 1 {
        stmt_failure(ctx.fail(msg_not_allowed(word), keyword.info))
    } else {
        let w = expression_window(ctx);
        let tokens = seq![keyword] + w.read;
        match w.result {
            Some(e) => StmtOutcome {
                ctx: w.ctx,
                result: Some(
                    if word == "print"@ {
                        StmtView::Print { tokens, expression: e }
                    } else {
                        StmtView::Expression { tokens, expression: e }
                    },
                ),
            },
            None => stmt_failure(w.ctx.fail(msg_no_expression(word), keyword.info)),
        }
    }
}

/// The statement `let`: a name, a type that is not `void`, `=`, an expression
/// and a `;`. The name is bound once the expression is parsed, so it is not
/// visible in it, and only where the statement succeeds.
pub open spec fn parse_let_spec(ctx: ContextView, keyword: TokenView) -> StmtOutcome {
    if ctx.table.depth() == 1 {
        stmt_failure(ctx.fail(msg_not_allowed("let"@), keyword.info))
    } else {
        match take_token(
            ctx,
            "tokens should not end here, expected an identifier token"@,
            keyword.info,
        ) {
            Taken::Missing { ctx: failed } => stmt_failure(failed),
            Taken::Token { token: name_token, ctx: c1 } => match name_token.payload {
                Payload::Identifier(name) => match take_token(
                    c1,
                    "tokens should not end here, expected a type token"@,
                    name_token.info,
                ) {
                    Taken::Missing { ctx: failed } => stmt_failure(failed),
                    Taken::Token { token: type_token, ctx: c2 } => match type_token.payload {
                        Payload::Type(VType::Void) => stmt_failure(
                            c2.fail(
                                "variable `"@ + name + "` has incomplete type `void`"@,
                                type_token.info,
                            ),
                        ),
                        Payload::Type(vtype) => match take_token(
                            c2,
                            "tokens should not end here, expected '=' after type token"@,
                            type_token.info,
                        ) {
                            Taken::Missing { ctx: failed } => stmt_failure(failed),
                            Taken::Token { token: equal, ctx: c3 } => match equal.payload {
                                Payload::Symbol(Symbol::Equal) => {
                                    let w = expression_window(c3);
                                    match w.result {
                                        Some(e) => {
                                            if !w.ctx.table.can_define() {
                                                stmt_failure(
                                                    w.ctx.fail(msg_no_id(name), name_token.info),
                                                )
                                            } else {
                                                StmtOutcome {
                                                    ctx: w.ctx.with_table(
                                                        w.ctx.table.define(name, vtype),
                                                    ),
                                                    result: Some(
                                                        StmtView::Declare {
                                                            tokens: seq![
                                                                keyword,
                                                                name_token,
                                                                type_token,
                                                                equal,
                                                            ] + w.read,
                                                            vtype,
                                                            id: w.ctx.table.next_id,
                                                            expression: e,
                                                        },
                                                    ),
                                                }
                                            }
                                        },
                                        None => stmt_failure(
                                            w.ctx.fail(msg_no_expression("let"@), keyword.info),
                                        ),
                                    }
                                },
                                Payload::Symbol(sym) => stmt_failure(
                                    c3.fail(
                                        msg_expected_symbol(
                                            "expected symbol `"@,
                                            Symbol::Equal,
                                            "` after type in `let` statement, got `"@,
                                            sym,
                                        ),
                                        equal.info,
                                    ),
                                ),
                                _ => stmt_failure(
                                    c3.fail("expected symbol `=` after type"@, equal.info),
                                ),
                            },
                        },
                        _ => stmt_failure(
                            c2.fail(
                                "expected a type token after identifier `"@ + name + "`"@,
                                type_token.info,
                            ),
                        ),
                    },
                },
                _ => stmt_failure(
                    c1.fail("expected identifier token after `let`"@, name_token.info),
                ),
            },
        }
    }
}

/// The statement `set`: a name that is bound, `=`, an expression and a `;`.
pub open spec fn parse_set_spec(ctx: ContextView, keyword: TokenView) -> StmtOutcome {
    if ctx.table.depth() == 1 {
        stmt_failure(ctx.fail(msg_not_allowed("set"@), keyword.info))
    } else {
        match take_token(
            ctx,
            "tokens should not end here, expected an identifier token"@,
            keyword.info,
        ) {
            Taken::Missing { ctx: failed } => stmt_failure(failed),
            Taken::Token { token: name_token, ctx: c1 } => match name_token.payload {
                Payload::Identifier(name) => match ctx.table.get_id(name) {
                    Some(id) => match take_token(
                        c1,
                        "tokens should not end here, expected '=' after identifier token"@,
                        name_token.info,
                    ) {
                        Taken::Missing { ctx: failed } => stmt_failure(failed),
                        Taken::Token { token: equal, ctx: c2 } => match equal.payload {
                            Payload::Symbol(Symbol::Equal) => {
                                let w = expression_window(c2);
                                match w.result {
                                    Some(e) => StmtOutcome {
                                        ctx: w.ctx,
                                        result: Some(
                                            StmtView::Assign {
                                                tokens: seq![keyword, name_token, equal] + w.read,
                                                id,
                                                expression: e,
                                            },
                                        ),
                                    },
                                    None => stmt_failure(
                                        w.ctx.fail(msg_no_expression("set"@), keyword.info),
                                    ),
                                }
                            },
                            Payload::Symbol(sym) => stmt_failure(
                                c2.fail(
                                    msg_expected_symbol(
                                        "expected symbol `"@,
                                        Symbol::Equal,
                                        "` after identifier in `set` statement, got `"@,
                                        sym,
                                    ),
                                    equal.info,
                                ),
                            ),
                            _ => stmt_failure(
                                c2.fail("expected symbol `=` after identifier"@, equal.info),
                            ),
                        },
                    },
                    None => stmt_failure(
                        c1.fail(
                            "identifier `"@ + name + "` not declared in the current scope."@,
                            name_token.info,
                        ),
                    ),
                },
                _ => stmt_failure(
                    c1.fail("expected identifier token after `set`"@, name_token.info),
                ),
            },
        }
    }
}

/// What the head of a function statement leaves to read is shorter than what
/// followed the keyword.
pub proof fn lemma_header_shorter(ctx: ContextView, keyword: TokenView)
    ensures
        function_header(ctx, keyword) matches Header::Opened { ctx: behind, .. } ==> behind.tokens.len()
            < ctx.tokens.len(),
{
    if ctx.tokens.len() >= 2 {
        let c2 = ctx.advance().advance();
        lemma_symbol_at_bounds(c2.tokens, Symbol::RightParen, 0);
        let k = symbol_at(c2.tokens, Symbol::RightParen, 0);
        let behind = c2.with_tokens(
            if k < c2.tokens.len() {
                c2.tokens.skip(k + 1)
            } else {
                Seq::empty()
            },
        ).with_table(c2.table.push_scope());
        lemma_parameters_keep_tokens(
            behind,
            c2.tokens.take(k),
            seq![keyword, ctx.tokens[0], ctx.tokens[1]] + (if k < c2.tokens.len() {
                c2.tokens.take(k + 1)
            } else {
                c2.tokens
            }),
            Seq::empty(),
        );
    }
}

/// A parse of parameters that succeeds leaves the tokens of its context as
/// they were.
pub proof fn lemma_parameters_keep_tokens(
    ctx: ContextView,
    window: Seq<TokenView>,
    read: Seq<TokenView>,
    parameters: Seq<ParameterView>,
)
    ensures
        parse_parameters_spec(ctx, window, read, parameters).ok ==> parse_parameters_spec(
            ctx,
            window,
            read,
            parameters,
        ).ctx.tokens == ctx.tokens,
    decreases window.len(),
{
    if window.len() >= 2 {
        match (window[0].payload, window[1].payload) {
            (Payload::Identifier(name), Payload::Type(vtype)) => {
                if parameter_separator(window) is None && ctx.table.can_define() {
                    lemma_parameters_keep_tokens(
                        ctx.with_table(ctx.table.define(name, vtype)),
                        window.skip(
                            if window.len() == 2 {
                                2
                            } else {
                                3
                            },
                        ),
                        if window.len() == 2 {
                            read.push(window[1])
                        } else {
                            read.push(window[1]).push(window[2])
                        },
                        parameters.push(ParameterView { id: ctx.table.next_id, vtype }),
                    );
                }
            },
            _ => {},
        }
    }
}

/// The statement that the tokens of `ctx` begin with.
///
/// A `{` begins a compound statement, which opens a scope of its own where
/// `manage_scope` says so. A word begins the statement that it names. Anything
/// else is an error. No tokens give no statement.
pub open spec fn parse_statement_spec(ctx: ContextView, manage_scope: bool) -> StmtOutcome
    decreases ctx.tokens.len(), 0int,
{
    if ctx.tokens.len() == 0 {
        stmt_failure(ctx)
    } else {
        let t = ctx.tokens[0];
        let rest = ctx.advance();
        match t.payload {
            Payload::Symbol(Symbol::LeftBrace) => parse_compound_spec(rest, t, manage_scope),
            Payload::Symbol(sym) => stmt_failure(
                rest.fail(
                    msg_expected_symbol(
                        "expected symbol `"@,
                        Symbol::LeftBrace,
                        "` when beginning a statement, got `"@,
                        sym,
                    ),
                    t.info,
                ),
            ),
            Payload::Identifier(word) => {
                if word == "function"@ {
                    parse_function_spec(rest, t)
                } else if word == "return"@ {
                    parse_return_spec(rest, t)
                } else if word == "let"@ {
                    parse_let_spec(rest, t)
                } else if word == "set"@ {
                    parse_set_spec(rest, t)
                } else if word == "print"@ || word == "express"@ {
                    parse_plain_spec(rest, t, word)
                } else {
                    stmt_failure(
                        rest.fail(
                            "unexpected identifier `"@ + word + "` when beginning a statement"@,
                            t.info,
                        ),
                    )
                }
            },
            _ => stmt_failure(
                rest.fail(msg_unexpected_token(t.payload, "` when beginning a statement"@), t.info),
            ),
        }
    }
}

/// The function statement whose keyword `keyword` was read: a declaration,
/// or a definition, whose body is a compound statement that takes the
/// function's own scope for its own. A body that fails takes the signature
/// back.
pub open spec fn parse_function_spec(ctx: ContextView, keyword: TokenView) -> StmtOutcome
    decreases ctx.tokens.len(), 3int,
{
    match function_header(ctx, keyword) {
        Header::Failed { ctx: failed } => stmt_failure(failed),
        Header::Declared { ctx: behind, tokens, signature } => StmtOutcome {
            ctx: behind,
            result: Some(StmtView::FunctionDeclare { tokens, signature }),
        },
        Header::Opened { ctx: behind, brace, tokens, signature } => {
            proof {
                lemma_header_shorter(ctx, keyword);
            }
            let body = parse_compound_spec(behind, brace, false);
            match body.result {
                Some(StmtView::Compound { tokens: body_tokens, statements }) => StmtOutcome {
                    ctx: body.ctx.with_table(body.ctx.table.pop_scope()),
                    result: Some(
                        StmtView::FunctionDefine { tokens, signature, body_tokens, body: statements },
                    ),
                },
                _ => stmt_failure(
                    body.ctx.with_table(body.ctx.table.retract_function().pop_scope()),
                ),
            }
        },
    }
}

/// The compound statement whose `{` is `brace`: the statements up to the `}`
/// that closes it, parsed in a context of their own. Its symbol table and its
/// diagnostics are taken over.
pub open spec fn parse_compound_spec(ctx: ContextView, brace: TokenView, manage_scope: bool) -> StmtOutcome
    decreases ctx.tokens.len(), 2int,
{
    let k = closing(ctx.tokens, Symbol::LeftBrace, Symbol::RightBrace, 0, 1);
    if k >= ctx.tokens.len() {
        stmt_failure(
            ctx.with_tokens(Seq::empty()).fail(
                "no close braces found for compound statement"@,
                brace.info,
            ),
        )
    } else {
        proof {
            lemma_closing_bounds(ctx.tokens, Symbol::LeftBrace, Symbol::RightBrace, 0, 1);
        }
        let inner = ctx.window(ctx.tokens.take(k)).with_table(
            if manage_scope {
                ctx.table.push_scope()
            } else {
                ctx.table
            },
        );
        let block = parse_block(inner, Seq::empty());
        StmtOutcome {
            ctx: ctx.with_tokens(ctx.tokens.skip(k + 1)).merge(block.ctx.errors).with_table(
                if manage_scope {
                    block.ctx.table.pop_scope()
                } else {
                    block.ctx.table
                },
            ),
            result: Some(
                StmtView::Compound {
                    tokens: seq![brace] + ctx.tokens.take(k + 1),
                    statements: block.statements,
                },
            ),
        }
    }
}

/// The statements that the tokens of `ctx` form, behind those of `done`. A
/// statement that fails leaves its diagnostics and is left out.
///
/// Every statement takes at least one token, so the run reads its tokens to
/// the end; the definition stops where a statement would take none, which
/// makes it well founded by itself.
pub open spec fn parse_block(ctx: ContextView, done: Seq<StmtView>) -> BlockOutcome
    decreases ctx.tokens.len(), 1int,
{
    if ctx.tokens.len() == 0 {
        BlockOutcome { ctx, statements: done }
    } else {
        let one = parse_statement_spec(ctx, true);
        let added = match one.result {
            Some(s) => done.push(s),
            None => done,
        };
        if one.ctx.tokens.len() < ctx.tokens.len() {
            parse_block(one.ctx, added)
        } else {
            BlockOutcome { ctx: one.ctx, statements: added }
        }
    }
}

/// The context in which the parse of the source text `source` begins: its
/// tokens, one scope, and no signature.
pub open spec fn root_context(source: Seq<char>) -> ContextView {
    ContextView {
        source,
        tokens: lex_spec(source),
        table: TableView::empty().push_scope(),
        errors: Seq::empty(),
    }
}

/// The program tree and the diagnostics of the source text `source`.
pub open spec fn parse_root_spec(source: Seq<char>) -> BlockOutcome {
    parse_block(root_context(source), Seq::empty())
}

} // verus!
