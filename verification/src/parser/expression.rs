//! The expression parser: operator precedence over two stacks.

use vstd::prelude::*;
use vstd::string::StringExecFns;
use std::collections::VecDeque;
use crate::ast::expression::ExprView;
use crate::ast::expression::Expression;
use crate::ast::expression::expressions_view;
use crate::ast::literal::Literal;
use crate::ast::statement::optional_view;
use crate::data::ops::ArithmeticOperation;
use crate::data::ops::BooleanOperation;
use crate::data::ops::ComparisonOperation;
use crate::data::syms::Symbol;
use crate::data::text::concat3;
use crate::data::text::concat5;
use crate::data::text::decimal_text;
use crate::data::vtype::VType;
use crate::parser::ParserContext;
use crate::parser::ParserError;
use crate::parser::errors_view;
use crate::parser::grammar::ErrorView;
use crate::parser::grammar::Operator;
use crate::parser::grammar::ShuntView;
use crate::parser::grammar::argument_count;
use crate::parser::grammar::binary_node;
use crate::parser::grammar::call_outcome;
use crate::parser::grammar::closing;
use crate::parser::grammar::comma_at;
use crate::parser::grammar::expression_end;
use crate::parser::grammar::expression_loop;
use crate::parser::grammar::first_argument;
use crate::parser::grammar::later_arguments;
use crate::parser::grammar::lemma_call_head_shorter;
use crate::parser::grammar::lemma_closing_bounds;
use crate::parser::grammar::lemma_comma_at_bounds;
use crate::parser::grammar::operator_of;
use crate::parser::grammar::parse_arguments_spec;
use crate::parser::grammar::parse_expression_spec;
use crate::parser::grammar::precedence;
use crate::parser::merge_errors;
use crate::parser::next_token;
use crate::parser::parser_error;
use crate::parser::precedence::law_precedence_shapes_the_tree;
use crate::parser::precedence::plain;
use crate::parser::precedence::precedence_ordered;
use crate::parser::resolution::lemma_expression_resolved;
use crate::parser::resolution::resolved_in;
use crate::parser::sub_context;
use crate::parser::token::ArithmeticToken;
use crate::parser::token::BooleanLiteralToken;
use crate::parser::token::BooleanToken;
use crate::parser::token::ComparisonToken;
use crate::parser::token::IdentifierToken;
use crate::parser::token::IntegerLiteralToken;
use crate::parser::token::SymbolToken;
use crate::parser::token::Token;
use crate::parser::token::TokenInfo;
use crate::parser::token::TokenType;
use crate::parser::token::TokenView;
use crate::parser::token::copy_tokens;
use crate::parser::token::push_copy;
use crate::parser::token::push_token;
use crate::parser::token::tokens_view;

verus! {

/// How tightly `op` binds.
pub fn precedence_of(op: Operator) -> (r: u8)
    ensures
        r == precedence(op),
{
    match op {
        Operator::Mul | Operator::Div => 3,
        Operator::Add | Operator::Sub => 2,
        Operator::Gt | Operator::Gte | Operator::Lt | Operator::Lte | Operator::Eq | Operator::Neq => 1,
        Operator::And | Operator::Or => 0,
    }
}

/// The operator that `token` stands for, if it stands for one.
pub fn operator_for(token: &Token) -> (r: Option<Operator>)
    ensures
        r == operator_of(token@.payload),
{
    match token.get_type() {
        TokenType::Arithmetic => {
            let t = token.as_token::<ArithmeticToken>().unwrap();
            Some(
                match t.op() {
                    ArithmeticOperation::Add => Operator::Add,
                    ArithmeticOperation::Subtract => Operator::Sub,
                    ArithmeticOperation::Multiply => Operator::Mul,
                    ArithmeticOperation::Divide => Operator::Div,
                },
            )
        },
        TokenType::Comparison => {
            let t = token.as_token::<ComparisonToken>().unwrap();
            Some(
                match t.op() {
                    ComparisonOperation::IsEqual => Operator::Eq,
                    ComparisonOperation::IsNotEqual => Operator::Neq,
                    ComparisonOperation::IsGreater => Operator::Gt,
                    ComparisonOperation::IsGreaterOrEqual => Operator::Gte,
                    ComparisonOperation::IsLess => Operator::Lt,
                    ComparisonOperation::IsLessOrEqual => Operator::Lte,
                },
            )
        },
        TokenType::Boolean => {
            let t = token.as_token::<BooleanToken>().unwrap();
            Some(
                match t.op() {
                    BooleanOperation::And => Operator::And,
                    BooleanOperation::Or => Operator::Or,
                },
            )
        },
        _ => None,
    }
}

/// The node that applies `op` to `left` and `right`.
pub fn make_binary(op: Operator, tokens: VecDeque<Token>, left: Expression, right: Expression) -> (r:
    Expression)
    ensures
        r@ == binary_node(op, tokens_view(tokens@), left@, right@),
{
    match op {
        Operator::Add => Expression::new_arithmetic(
            tokens,
            VType::Integer,
            ArithmeticOperation::Add,
            left,
            right,
        ),
        Operator::Sub => Expression::new_arithmetic(
            tokens,
            VType::Integer,
            ArithmeticOperation::Subtract,
            left,
            right,
        ),
        Operator::Mul => Expression::new_arithmetic(
            tokens,
            VType::Integer,
            ArithmeticOperation::Multiply,
            left,
            right,
        ),
        Operator::Div => Expression::new_arithmetic(
            tokens,
            VType::Integer,
            ArithmeticOperation::Divide,
            left,
            right,
        ),
        Operator::Eq => Expression::new_comparison(tokens, ComparisonOperation::IsEqual, left, right),
        Operator::Neq => Expression::new_comparison(
            tokens,
            ComparisonOperation::IsNotEqual,
            left,
            right,
        ),
        Operator::Gt => Expression::new_comparison(tokens, ComparisonOperation::IsGreater, left, right),
        Operator::Gte => Expression::new_comparison(
            tokens,
            ComparisonOperation::IsGreaterOrEqual,
            left,
            right,
        ),
        Operator::Lt => Expression::new_comparison(tokens, ComparisonOperation::IsLess, left, right),
        Operator::Lte => Expression::new_comparison(
            tokens,
            ComparisonOperation::IsLessOrEqual,
            left,
            right,
        ),
        Operator::And => Expression::new_boolean(tokens, BooleanOperation::And, left, right),
        Operator::Or => Expression::new_boolean(tokens, BooleanOperation::Or, left, right),
    }
}

/// The two stacks of the expression parser, and the tokens read since the
/// last node was completed.
pub struct Shunt {
    pending: VecDeque<Token>,
    output: Vec<Expression>,
    operators: Vec<Operator>,
}

impl View for Shunt {
    type V = ShuntView;

    closed spec fn view(&self) -> ShuntView {
        ShuntView {
            pending: tokens_view(self.pending@),
            output: expressions_view(self.output@),
            operators: self.operators@,
        }
    }
}

impl Shunt {
    pub fn new() -> (r: Self)
        ensures
            r@ == ShuntView::empty(),
    {
        let r = Shunt { pending: VecDeque::new(), output: Vec::new(), operators: Vec::new() };
        assert(r@.pending =~= Seq::empty());
        assert(r@.output =~= Seq::empty());
        assert(r@.operators =~= Seq::empty());
        r
    }

    /// Notes that `token` was read.
    pub fn read(&mut self, token: &Token)
        ensures
            final(self)@ == old(self)@.read(token@),
    {
        push_copy(&mut self.pending, token);
    }

    /// Hands out the tokens read since the last node was completed.
    pub fn take_pending(&mut self) -> (r: VecDeque<Token>)
        ensures
            tokens_view(r@) == old(self)@.pending,
            final(self)@ == (ShuntView { pending: Seq::empty(), ..old(self)@ }),
    {
        let mut taken: VecDeque<Token> = VecDeque::new();
        core::mem::swap(&mut self.pending, &mut taken);
        assert(self@.pending =~= Seq::empty());
        taken
    }

    /// Pushes an operand and leaves the pending tokens as they are.
    pub fn group(&mut self, e: Expression)
        ensures
            final(self)@ == old(self)@.group(e@),
    {
        self.output.push(e);
        assert(self@.output =~= old(self)@.output.push(e@));
    }

    pub fn push_operator(&mut self, op: Operator)
        ensures
            final(self)@ == old(self)@.push_operator(op),
    {
        self.operators.push(op);
    }

    /// Applies the topmost operator to the two topmost operands.
    pub fn apply_operator(&mut self)
        requires
            old(self)@.operators.len() > 0,
            old(self)@.output.len() >= 2,
        ensures
            final(self)@ == old(self)@.reduce(),
    {
        let ghost before = self@;
        let ghost n = before.output.len() as int;
        let mut tokens: VecDeque<Token> = VecDeque::new();
        core::mem::swap(&mut self.pending, &mut tokens);
        let op = self.operators.pop().unwrap();
        let rhs = self.output.pop().unwrap();
        let lhs = self.output.pop().unwrap();
        assert(rhs@ == before.output[n - 1]);
        assert(lhs@ == before.output[n - 2]);
        assert(expressions_view(self.output@) =~= before.output.take(n - 2));
        let node = make_binary(op, tokens, lhs, rhs);
        self.output.push(node);
        assert(self@.output =~= before.reduce().output);
        assert(self@.operators =~= before.reduce().operators);
        assert(self@.pending =~= before.reduce().pending);
    }

    /// Applies every operator on top of the stack that binds at least as
    /// tightly as `prec`; says what is wrong where one of them lacks an
    /// operand.
    pub fn reduce_above(&mut self, prec: u8) -> (r: Result<(), &'static str>)
        ensures
            match old(self)@.reduce_above(prec) {
                Ok(s) => r is Ok && final(self)@ == s,
                Err(m) => r is Err && r->Err_0@ == m,
            },
    {
        loop
            invariant
                self@.reduce_above(prec) == old(self)@.reduce_above(prec),
            decreases self@.operators.len(),
        {
            let n = self.operators.len();
            if n == 0 || precedence_of(self.operators[n - 1]) < prec {
                return Ok(());
            }
            if self.output.len() == 0 {
                return Err("Missing RHS expression");
            }
            if self.output.len() == 1 {
                return Err("Missing LHS expression");
            }
            self.apply_operator();
        }
    }

    /// The number of operands on the output stack.
    pub fn operands(&self) -> (r: usize)
        ensures
            r == self@.output.len(),
    {
        self.output.len()
    }

    /// Takes the topmost operand off the output stack.
    pub fn pop_operand(&mut self) -> (r: Option<Expression>)
        ensures
            match r {
                Some(e) => {
                    &&& old(self)@.output.len() > 0
                    &&& e@ == old(self)@.output.last()
                    &&& final(self)@ == (ShuntView {
                        output: old(self)@.output.drop_last(),
                        ..old(self)@
                    })
                },
                None => old(self)@.output.len() == 0 && final(self)@ == old(self)@,
            },
    {
        let r = self.output.pop();
        assert(self@.output =~= if r is Some {
            old(self)@.output.drop_last()
        } else {
            old(self)@.output
        });
        r
    }
}

/// Takes off `tokens` what stands before the closing bracket `close` that
/// matches an opening bracket `open` read just before, and that closing
/// bracket with it. A copy of each token taken goes to `seen`. Where the
/// bracket is never closed, all tokens are taken and nothing is returned.
pub fn take_window(tokens: &mut VecDeque<Token>, seen: &mut VecDeque<Token>, open: Symbol, close: Symbol) -> (r:
    Option<VecDeque<Token>>)
    ensures
        ({
            let before = tokens_view(old(tokens)@);
            let k = closing(before, open, close, 0, 1);
            if k >= before.len() {
                &&& r is None
                &&& tokens_view(final(tokens)@) == Seq::<TokenView>::empty()
                &&& tokens_view(final(seen)@) == tokens_view(old(seen)@) + before
            } else {
                &&& r is Some
                &&& tokens_view(r->0@) == before.take(k)
                &&& tokens_view(final(tokens)@) == before.skip(k + 1)
                &&& tokens_view(final(seen)@) == tokens_view(old(seen)@) + before.take(k + 1)
            }
        }),
{
    let ghost before = tokens_view(old(tokens)@);
    let total = tokens.len();
    let mut inner: VecDeque<Token> = VecDeque::new();
    // The brackets opened inside the window and not yet closed.
    let mut nested: usize = 0;
    let ghost mut i: int = 0;
    assert(tokens_view(inner@) =~= before.take(0));
    assert(tokens_view(tokens@) =~= before.skip(0));
    assert(tokens_view(seen@) =~= tokens_view(old(seen)@) + before.take(0));
    loop
        invariant
            before == tokens_view(old(tokens)@),
            0 <= i <= before.len(),
            before.len() == total,
            tokens@.len() == before.len() - i,
            nested <= i,
            tokens_view(tokens@) == before.skip(i),
            tokens_view(inner@) == before.take(i),
            tokens_view(seen@) == tokens_view(old(seen)@) + before.take(i),
            closing(before, open, close, 0, 1) == closing(before, open, close, i, (nested + 1) as nat),
        decreases before.len() - i,
    {
        match next_token(tokens) {
            None => {
                proof {
                    assert(i == before.len());
                    assert(before.take(i) =~= before);
                    assert(tokens_view(tokens@) =~= Seq::<TokenView>::empty());
                }
                return None;
            },
            Some(token) => {
                assert(token@ == before[i]);
                push_copy(seen, &token);
                proof {
                    assert(before.take(i).push(before[i]) =~= before.take(i + 1));
                    assert(tokens_view(seen@) =~= tokens_view(old(seen)@) + before.take(i + 1));
                    assert(before.skip(i).skip(1) =~= before.skip(i + 1));
                }
                if token.is_symbol(open) {
                    nested += 1;
                } else if token.is_symbol(close) {
                    if nested == 0 {
                        return Some(inner);
                    }
                    nested -= 1;
                }
                push_token(&mut inner, token);
                proof {
                    i = i + 1;
                }
            },
        }
    }
}

/// Takes the first argument window off `tokens`: what stands before the first
/// `,` that is inside no parentheses, and that `,` with it.
pub fn take_argument(tokens: &mut VecDeque<Token>) -> (r: VecDeque<Token>)
    ensures
        tokens_view(r@) == first_argument(tokens_view(old(tokens)@)),
        tokens_view(final(tokens)@) == later_arguments(tokens_view(old(tokens)@)),
{
    let ghost before = tokens_view(old(tokens)@);
    let total = tokens.len();
    let mut window: VecDeque<Token> = VecDeque::new();
    let mut depth: usize = 0;
    let ghost mut i: int = 0;
    assert(tokens_view(window@) =~= before.take(0));
    assert(tokens_view(tokens@) =~= before.skip(0));
    loop
        invariant
            before == tokens_view(old(tokens)@),
            0 <= i <= before.len(),
            before.len() == total,
            tokens@.len() == before.len() - i,
            depth <= i,
            tokens_view(tokens@) == before.skip(i),
            tokens_view(window@) == before.take(i),
            comma_at(before, 0, 0) == comma_at(before, i, depth as nat),
        decreases before.len() - i,
    {
        match next_token(tokens) {
            None => {
                proof {
                    assert(i == before.len());
                    assert(tokens_view(tokens@) =~= Seq::<TokenView>::empty());
                }
                return window;
            },
            Some(token) => {
                assert(token@ == before[i]);
                proof {
                    assert(before.skip(i).skip(1) =~= before.skip(i + 1));
                }
                if token.is_symbol(Symbol::LeftParen) {
                    depth += 1;
                } else if token.is_symbol(Symbol::RightParen) {
                    if depth > 0 {
                        depth -= 1;
                    }
                } else if depth == 0 && token.is_symbol(Symbol::Comma) {
                    return window;
                }
                push_token(&mut window, token);
                proof {
                    assert(before.take(i).push(before[i]) =~= before.take(i + 1));
                    i = i + 1;
                }
            },
        }
    }
}

/// The number of argument windows of `tokens`.
pub fn count_arguments(tokens: &VecDeque<Token>) -> (r: usize)
    ensures
        r == argument_count(tokens_view(tokens@)),
{
    let mut left = copy_tokens(tokens);
    let total = tokens.len();
    let mut count: usize = 0;
    while left.len() > 0
        invariant
            count + argument_count(tokens_view(left@)) == argument_count(tokens_view(tokens@)),
            count + left@.len() <= total,
        decreases left@.len(),
    {
        proof {
            lemma_comma_at_bounds(tokens_view(left@), 0, 0);
        }
        let ghost before = tokens_view(left@);
        let _ = take_argument(&mut left);
        assert(tokens_view(left@).len() < before.len());
        assert(tokens_view(left@).len() == left@.len());
        count += 1;
    }
    count
}

/// Appends a copy of each token of `ts` to `acc`.
pub fn push_copies(acc: &mut VecDeque<Token>, ts: &VecDeque<Token>)
    ensures
        tokens_view(final(acc)@) == tokens_view(old(acc)@) + tokens_view(ts@),
{
    let mut i: usize = 0;
    assert(tokens_view(acc@) =~= tokens_view(old(acc)@) + tokens_view(ts@).take(0));
    while i < ts.len()
        invariant
            i <= ts@.len(),
            tokens_view(acc@) == tokens_view(old(acc)@) + tokens_view(ts@).take(i as int),
        decreases ts@.len() - i,
    {
        push_copy(acc, &ts[i]);
        assert(tokens_view(ts@).take(i as int).push(ts@[i as int]@) =~= tokens_view(ts@).take(i + 1));
        assert(tokens_view(acc@) =~= tokens_view(old(acc)@) + tokens_view(ts@).take(i + 1));
        i += 1;
    }
    assert(tokens_view(ts@).take(ts@.len() as int) =~= tokens_view(ts@));
}

/// What a parse of an argument list gives: the diagnostics of the argument
/// parses, the arguments unless one of them failed, and the span to which the
/// failure is pinned.
pub struct Arguments {
    pub errors: Vec<ParserError>,
    pub result: Option<VecDeque<Expression>>,
    pub anchor: TokenInfo,
}

/// The view of an optional list of expressions.
pub open spec fn optional_list_view(es: Option<VecDeque<Expression>>) -> Option<Seq<ExprView>> {
    match es {
        Some(x) => Some(expressions_view(x@)),
        None => None,
    }
}

/// What `done` followed by the optional `later` gives.
pub open spec fn prepend(done: Seq<ExprView>, later: Option<Seq<ExprView>>) -> Option<Seq<ExprView>> {
    match later {
        Some(es) => Some(done + es),
        None => None,
    }
}

/// Parses the arguments that `inner` holds, window by window, each in a
/// context of its own.
pub fn parse_arguments(parser_context: &ParserContext, inner: VecDeque<Token>, fallback: TokenInfo) -> (r:
    Arguments)
    ensures
        ({
            let o = parse_arguments_spec(parser_context@.window(tokens_view(inner@)), fallback);
            &&& errors_view(r.errors@) == o.errors
            &&& optional_list_view(r.result) == o.result
            &&& r.anchor == o.anchor
        }),
    decreases inner@.len(), 2int,
{
    let ghost goal = parse_arguments_spec(parser_context@.window(tokens_view(inner@)), fallback);
    let ghost base = parser_context@.window(tokens_view(inner@));
    let mut left = inner;
    let mut errors: Vec<ParserError> = Vec::new();
    let mut args: VecDeque<Expression> = VecDeque::new();
    let ghost bound = inner@.len();
    assert(errors_view(errors@) =~= Seq::<ErrorView>::empty());
    assert(expressions_view(args@) =~= Seq::<ExprView>::empty());
    assert(base.with_tokens(tokens_view(left@)).with_errors(errors_view(errors@)) == base);
    proof {
        let rem = parse_arguments_spec(base, fallback);
        if rem.result is Some {
            assert(expressions_view(args@) + rem.result->0 =~= rem.result->0);
        }
    }
    loop
        invariant
            base == parser_context@.window(base.tokens),
            goal == parse_arguments_spec(parser_context@.window(tokens_view(inner@)), fallback),
            bound == inner@.len(),
            left@.len() <= bound,
            ({
                let rem = parse_arguments_spec(
                    base.with_tokens(tokens_view(left@)).with_errors(errors_view(errors@)),
                    fallback,
                );
                &&& goal.errors == rem.errors
                &&& goal.anchor == rem.anchor
                &&& goal.result == prepend(expressions_view(args@), rem.result)
            }),
        decreases left@.len(),
    {
        let ghost now = base.with_tokens(tokens_view(left@)).with_errors(errors_view(errors@));
        if left.len() == 0 {
            assert(expressions_view(args@) + Seq::<ExprView>::empty() =~= expressions_view(args@));
            return Arguments { errors, result: Some(args), anchor: fallback };
        }
        proof {
            lemma_comma_at_bounds(tokens_view(left@), 0, 0);
        }
        assert(tokens_view(left@).len() == left@.len());
        let window = take_argument(&mut left);
        assert(tokens_view(left@).len() == left@.len());
        assert(tokens_view(window@).len() == window@.len());
        let anchor = if window.len() == 0 {
            fallback
        } else {
            window[0].info()
        };
        let mut sub = sub_context(parser_context, window);
        assert(sub@ == now.window(first_argument(now.tokens)));
        let parsed = parse_expression(&mut sub);
        merge_errors(&mut errors, &mut sub.errors);
        match parsed {
            None => {
                return Arguments { errors, result: None, anchor };
            },
            Some(e) => {
                let ghost done = expressions_view(args@);
                args.push_back(e);
                proof {
                    assert(expressions_view(args@) =~= done.push(e@));
                    let rem = parse_arguments_spec(
                        base.with_tokens(tokens_view(left@)).with_errors(errors_view(errors@)),
                        fallback,
                    );
                    if rem.result is Some {
                        assert(done + (seq![e@] + rem.result->0) =~= done.push(e@) + rem.result->0);
                    }
                }
            },
        }
    }
}

/// Parses the call that follows the word `invoke`, which `shunt` has read
/// last.
pub fn parse_call(parser_context: &mut ParserContext, shunt: &mut Shunt, invoke_info: &TokenInfo) -> (r:
    Option<Expression>)
    requires
        old(shunt)@.pending.len() > 0,
        old(shunt)@.pending.last().info == *invoke_info,
    ensures
        final(parser_context)@ == call_outcome(old(parser_context)@, old(shunt)@).ctx,
        optional_view(r) == call_outcome(old(parser_context)@, old(shunt)@).result,
        r is Some ==> final(shunt)@ == (ShuntView { pending: Seq::empty(), ..old(shunt)@ }),
    decreases old(parser_context).tokens@.len(), 3int,
{
    let name_token = match next_token(&mut parser_context.tokens) {
        Some(t) => t,
        None => {
            parser_error(
                parser_context,
                "tokens should not end here, expected an identifier token",
                invoke_info,
            );
            return None;
        },
    };
    shunt.read(&name_token);
    let name_info = name_token.info();
    let func_name = match name_token.as_token::<IdentifierToken>() {
        Some(t) => t.name(),
        None => {
            parser_error(parser_context, "expected identifier token after `invoke`", &name_info);
            return None;
        },
    };
    let found = match parser_context.symbols_table.get_function(func_name.as_str()) {
        Some(signature) => Some((signature.return_type(), signature.arity())),
        None => None,
    };
    let (return_type, arity) = match found {
        Some(pair) => pair,
        None => {
            let message = concat3(
                "function `",
                func_name.as_str(),
                "` not declared in the current module",
            );
            parser_error(parser_context, message.as_str(), &name_info);
            return None;
        },
    };
    let begin = match next_token(&mut parser_context.tokens) {
        Some(t) => t,
        None => {
            parser_error(
                parser_context,
                "tokens should not end here, expected a symbol token",
                &name_info,
            );
            return None;
        },
    };
    shunt.read(&begin);
    let begin_info = begin.info();
    match begin.as_token::<SymbolToken>() {
        Some(t) => {
            let sym = t.sym();
            if sym != Symbol::LeftParen {
                let message = concat5(
                    "expected symbol `",
                    Symbol::LeftParen.name(),
                    "` to begin param list, got `",
                    sym.name(),
                    "`",
                );
                parser_error(parser_context, message.as_str(), &begin_info);
                return None;
            }
        },
        None => {
            parser_error(parser_context, "expected a symbol token to begin param list", &begin_info);
            return None;
        },
    }
    let ghost c2 = parser_context@;
    proof {
        lemma_closing_bounds(c2.tokens, Symbol::LeftParen, Symbol::RightParen, 0, 1);
    }
    let inner = match take_window(
        &mut parser_context.tokens,
        &mut shunt.pending,
        Symbol::LeftParen,
        Symbol::RightParen,
    ) {
        Some(w) => w,
        None => {
            parser_error(parser_context, "no close function param list", &begin_info);
            return None;
        },
    };
    push_copies(&mut shunt.pending, &inner);
    let count = count_arguments(&inner);
    if count != arity {
        let expected = decimal_text(arity);
        let got = decimal_text(count);
        let mut message = concat3(
            "mismatched argument length, expected ",
            expected.as_str(),
            ", got ",
        );
        message.append(got.as_str());
        parser_error(parser_context, message.as_str(), &begin_info);
        return None;
    }
    assert(tokens_view(inner@).len() == inner@.len());
    let mut args = parse_arguments(parser_context, inner, begin_info);
    merge_errors(&mut parser_context.errors, &mut args.errors);
    match args.result {
        None => {
            parser_error(parser_context, "no expression parsed for argument", &args.anchor);
            None
        },
        Some(passed) => {
            let tokens = shunt.take_pending();
            Some(Expression::new_function_call(tokens, return_type, func_name, passed))
        },
    }
}

/// Parses the parenthesised operand whose `(` `shunt` has read last, and
/// pushes it. Says whether it did.
pub fn parse_group(parser_context: &mut ParserContext, shunt: &mut Shunt, info: &TokenInfo) -> (r: bool)
    ensures
        ({
            let rest = old(parser_context)@;
            let k = closing(rest.tokens, Symbol::LeftParen, Symbol::RightParen, 0, 1);
            if k >= rest.tokens.len() {
                &&& !r
                &&& final(parser_context)@ == rest.with_tokens(Seq::empty()).fail(
                    "no close parenthesis found for expression"@,
                    *info,
                )
            } else {
                let inner = parse_expression_spec(rest.window(rest.tokens.take(k)));
                let after = rest.with_tokens(rest.tokens.skip(k + 1)).merge(inner.ctx.errors);
                match inner.result {
                    Some(e) => {
                        &&& r
                        &&& final(parser_context)@ == after
                        &&& final(shunt)@ == old(shunt)@.read_all(rest.tokens.take(k + 1)).group(e)
                    },
                    None => {
                        &&& !r
                        &&& final(parser_context)@ == after.fail("no inner expression parsed"@, *info)
                    },
                }
            }
        }),
    decreases old(parser_context).tokens@.len(), 3int,
{
    proof {
        lemma_closing_bounds(
            parser_context@.tokens,
            Symbol::LeftParen,
            Symbol::RightParen,
            0,
            1,
        );
    }
    let sub_tokens = match take_window(
        &mut parser_context.tokens,
        &mut shunt.pending,
        Symbol::LeftParen,
        Symbol::RightParen,
    ) {
        Some(w) => w,
        None => {
            parser_error(parser_context, "no close parenthesis found for expression", info);
            return false;
        },
    };
    assert(tokens_view(sub_tokens@).len() == sub_tokens@.len());
    let mut inner_context = sub_context(parser_context, sub_tokens);
    let inner_expr = parse_expression(&mut inner_context);
    merge_errors(&mut parser_context.errors, &mut inner_context.errors);
    match inner_expr {
        Some(e) => {
            shunt.group(e);
            true
        },
        None => {
            parser_error(parser_context, "no inner expression parsed", info);
            false
        },
    }
}

/// Ends the parse of an expression: applies the operators left on the stack
/// and hands out the one operand that must remain.
pub fn finish_expression(parser_context: &mut ParserContext, shunt: Shunt, anchor: &TokenInfo) -> (r:
    Option<Expression>)
    ensures
        final(parser_context)@ == expression_end(old(parser_context)@, shunt@, *anchor).ctx,
        optional_view(r) == expression_end(old(parser_context)@, shunt@, *anchor).result,
{
    let mut shunt = shunt;
    match shunt.reduce_above(0) {
        Err(message) => {
            parser_error(parser_context, message, anchor);
            None
        },
        Ok(()) => {
            let left = shunt.operands();
            if left != 1 {
                let got = decimal_text(left);
                let mut message = String::from_str(
                    "shunting yard algorithm failed, stack expected to finish with one expression, got ",
                );
                message.append(got.as_str());
                parser_error(parser_context, message.as_str(), anchor);
                None
            } else {
                shunt.pop_operand()
            }
        },
    }
}

/// Parses the tokens of `parser_context` as one expression.
///
/// Gives the expression, or nothing where the tokens form none; then the
/// diagnostics say why, but for an empty window, which gives nothing and
/// says nothing.
pub fn parse_expression(parser_context: &mut ParserContext) -> (r: Option<Expression>)
    ensures
        final(parser_context)@ == parse_expression_spec(old(parser_context)@).ctx,
        optional_view(r) == parse_expression_spec(old(parser_context)@).result,
        final(parser_context)@.table == old(parser_context)@.table,
        r matches Some(e) ==> resolved_in(e@, old(parser_context)@.table),
        r matches Some(e) ==> plain(old(parser_context)@.tokens, true) ==> precedence_ordered(e@),
    decreases old(parser_context).tokens@.len(), 1int,
{
    proof {
        lemma_expression_resolved(parser_context@);
        if plain(parser_context@.tokens, true) {
            law_precedence_shapes_the_tree(parser_context@);
        }
    }
    if parser_context.tokens.len() == 0 {
        return None;
    }
    let anchor = parser_context.tokens[0].info();
    let ghost goal = parse_expression_spec(old(parser_context)@);
    let ghost bound = parser_context.tokens@.len();
    let mut shunt = Shunt::new();
    loop
        invariant
            goal == parse_expression_spec(old(parser_context)@),
            goal.ctx.table == old(parser_context)@.table,
            goal.result matches Some(e) ==> resolved_in(e, old(parser_context)@.table),
            goal.result matches Some(e) ==> plain(old(parser_context)@.tokens, true)
                ==> precedence_ordered(e),
            expression_loop(parser_context@, shunt@, anchor) == goal,
            parser_context.tokens@.len() <= bound,
            bound == old(parser_context).tokens@.len(),
        decreases parser_context.tokens@.len(),
    {
        let ghost ctx = parser_context@;
        assert(ctx.tokens.len() == parser_context.tokens@.len());
        let token = match next_token(&mut parser_context.tokens) {
            Some(t) => t,
            None => {
                return finish_expression(parser_context, shunt, &anchor);
            },
        };
        assert(parser_context@ == ctx.advance());
        shunt.read(&token);
        let info = token.info();
        match token.get_type() {
            TokenType::IntegerLiteral => {
                let value = token.as_token::<IntegerLiteralToken>().unwrap().value();
                let tokens = shunt.take_pending();
                shunt.group(Expression::new_literal(tokens, Literal::new_integer(value)));
            },
            TokenType::BooleanLiteral => {
                let value = token.as_token::<BooleanLiteralToken>().unwrap().value();
                let tokens = shunt.take_pending();
                shunt.group(Expression::new_literal(tokens, Literal::new_boolean(value)));
            },
            TokenType::Arithmetic | TokenType::Comparison | TokenType::Boolean => {
                let op = operator_for(&token).unwrap();
                match shunt.reduce_above(precedence_of(op)) {
                    Ok(()) => {
                        shunt.push_operator(op);
                    },
                    Err(message) => {
                        parser_error(parser_context, message, &anchor);
                        return None;
                    },
                }
            },
            TokenType::Symbol => {
                let sym = token.as_token::<SymbolToken>().unwrap().sym();
                match sym {
                    Symbol::LeftParen => {
                        proof {
                            lemma_closing_bounds(
                                parser_context@.tokens,
                                Symbol::LeftParen,
                                Symbol::RightParen,
                                0,
                                1,
                            );
                        }
                        if !parse_group(parser_context, &mut shunt, &info) {
                            return None;
                        }
                        assert(parser_context@.tokens.len() == parser_context.tokens@.len());
                    },
                    Symbol::RightParen => {
                        parser_error(parser_context, "expected a matched right parenthesis", &info);
                        return None;
                    },
                    _ => {
                        let message = concat5(
                            "expected symbol `",
                            Symbol::LeftParen.name(),
                            "` at beginsing of expression, got `",
                            sym.name(),
                            "`",
                        );
                        parser_error(parser_context, message.as_str(), &info);
                        return None;
                    },
                }
            },
            TokenType::Identifier => {
                let name = token.as_token::<IdentifierToken>().unwrap().name();
                if name == String::from_str("invoke") {
                    proof {
                        lemma_call_head_shorter(parser_context@, shunt@);
                    }
                    match parse_call(parser_context, &mut shunt, &info) {
                        Some(e) => {
                            assert(parser_context@.tokens.len() == parser_context.tokens@.len());
                            shunt.group(e);
                        },
                        None => {
                            return None;
                        },
                    }
                } else {
                    let id = parser_context.symbols_table.get_id(name.as_str());
                    let vtype = match parser_context.symbols_table.lookup(name.as_str()) {
                        Some(t) => Some(*t),
                        None => None,
                    };
                    match (id, vtype) {
                        (Some(id), Some(vtype)) => {
                            let tokens = shunt.take_pending();
                            shunt.group(Expression::new_variable(tokens, vtype, id));
                        },
                        _ => {
                            let message = concat3(
                                "identifier `",
                                name.as_str(),
                                "` not declared in the current scope",
                            );
                            parser_error(parser_context, message.as_str(), &info);
                            return None;
                        },
                    }
                }
            },
            TokenType::Type => {
                let message = concat3("unexpected token `", token.get_type().name(), "` in expression");
                parser_error(parser_context, message.as_str(), &info);
                return None;
            },
        }
    }
}

} // verus!
