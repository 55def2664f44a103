//! Precedence shapes the tree: in an expression without grouping
//! parentheses, a node's operands bind at least as tightly as the node.

use vstd::prelude::*;
use crate::ast::expression::ExprView;
use crate::ast::literal::LiteralView;
use crate::data::ops::ArithmeticOperation;
use crate::data::syms::Symbol;
use crate::parser::grammar::CallHead;
use crate::parser::grammar::ContextView;
use crate::parser::grammar::Operator;
use crate::parser::grammar::ShuntView;
use crate::parser::grammar::binary_node;
use crate::parser::grammar::call_head;
use crate::parser::grammar::closing;
use crate::parser::grammar::expression_loop;
use crate::parser::grammar::first_argument;
use crate::parser::grammar::later_arguments;
use crate::parser::grammar::lemma_call_head_shorter;
use crate::parser::grammar::lemma_closing_bounds;
use crate::parser::grammar::lemma_comma_at_bounds;
use crate::parser::grammar::operator_of;
use crate::parser::grammar::parse_arguments_spec;
use crate::parser::grammar::parse_expression_spec;
use crate::parser::grammar::precedence;
use crate::parser::token::Payload;
use crate::parser::token::TokenInfo;
use crate::parser::token::TokenView;

verus! {

/// How tightly the topmost node of `e` binds, where it applies an operator.
pub open spec fn node_precedence(e: ExprView) -> Option<u8> {
    match e {
        ExprView::Arithmetic { op, .. } => Some(
            match op {
                ArithmeticOperation::Multiply | ArithmeticOperation::Divide => 3u8,
                ArithmeticOperation::Add | ArithmeticOperation::Subtract => 2u8,
            },
        ),
        ExprView::Comparison { .. } => Some(1u8),
        ExprView::Boolean { .. } => Some(0u8),
        _ => None,
    }
}

/// Whether `e` may stand to the left of an operator that binds as tightly as
/// `prec`: it applies no operator, or one that binds at least as tightly.
pub open spec fn fits_left(e: ExprView, prec: u8) -> bool {
    node_precedence(e) matches Some(q) ==> q >= prec
}

/// Whether `e` may stand to the right of an operator that binds as tightly as
/// `prec`: it applies no operator, or one that binds more tightly.
pub open spec fn fits_right(e: ExprView, prec: u8) -> bool {
    node_precedence(e) matches Some(q) ==> q > prec
}

/// Whether every node of `e` that applies an operator has a left operand that
/// fits to its left and a right operand that fits to its right, in the
/// arguments of calls too.
pub open spec fn precedence_ordered(e: ExprView) -> bool
    decreases e,
{
    match e {
        ExprView::Literal { .. } => true,
        ExprView::Variable { .. } => true,
        ExprView::FunctionCall { args, .. } => forall|i: int|
            0 <= i < args.len() ==> precedence_ordered(#[trigger] args[i]),
        ExprView::Arithmetic { left, right, .. } => {
            &&& fits_left(*left, node_precedence(e)->0)
            &&& fits_right(*right, node_precedence(e)->0)
            &&& precedence_ordered(*left)
            &&& precedence_ordered(*right)
        },
        ExprView::Comparison { left, right, .. } => {
            &&& fits_left(*left, 1)
            &&& fits_right(*right, 1)
            &&& precedence_ordered(*left)
            &&& precedence_ordered(*right)
        },
        ExprView::Boolean { left, right, .. } => {
            &&& fits_left(*left, 0)
            &&& fits_right(*right, 0)
            &&& precedence_ordered(*left)
            &&& precedence_ordered(*right)
        },
    }
}

/// Whether `tokens` hold operands and operators in turn, beginning with an
/// operand where `operand` says so and ending with one, and no operand in
/// grouping parentheses. An operand is a literal, a name, or a call whose
/// argument windows are plain themselves.
pub open spec fn plain(tokens: Seq<TokenView>, operand: bool) -> bool
    decreases tokens.len(), 0int,
{
    if tokens.len() == 0 {
        !operand
    } else if !operand {
        operator_of(tokens[0].payload) is Some && plain(tokens.skip(1), true)
    } else {
        match tokens[0].payload {
            Payload::IntegerLiteral(_) => plain(tokens.skip(1), false),
            Payload::BooleanLiteral(_) => plain(tokens.skip(1), false),
            Payload::Identifier(name) => {
                if name == "invoke"@ {
                    let list = tokens.skip(3);
                    let k = closing(list, Symbol::LeftParen, Symbol::RightParen, 0, 1);
                    proof {
                        if tokens.len() >= 3 {
                            lemma_closing_bounds(list, Symbol::LeftParen, Symbol::RightParen, 0, 1);
                        }
                    }
                    &&& tokens.len() >= 3
                    &&& tokens[1].payload is Identifier
                    &&& tokens[2].is_symbol(Symbol::LeftParen)
                    &&& k < list.len()
                    &&& plain_arguments(list.take(k))
                    &&& plain(list.skip(k + 1), false)
                } else {
                    plain(tokens.skip(1), false)
                }
            },
            _ => false,
        }
    }
}

/// Whether every argument window of `tokens` is plain.
pub open spec fn plain_arguments(tokens: Seq<TokenView>) -> bool
    decreases tokens.len(), 1int,
{
    if tokens.len() == 0 {
        true
    } else {
        proof {
            lemma_comma_at_bounds(tokens, 0, 0);
        }
        plain(first_argument(tokens), true) && plain_arguments(later_arguments(tokens))
    }
}

/// The node that applies an operator binds as tightly as the operator.
pub proof fn lemma_node_precedence(op: Operator, tokens: Seq<TokenView>, left: ExprView, right: ExprView)
    ensures
        node_precedence(binary_node(op, tokens, left, right)) == Some(precedence(op)),
        fits_left(left, precedence(op)) && fits_right(right, precedence(op)) && precedence_ordered(left)
            && precedence_ordered(right) ==> precedence_ordered(binary_node(op, tokens, left, right)),
{
    match op {
        Operator::Add => {},
        Operator::Sub => {},
        Operator::Mul => {},
        Operator::Div => {},
        Operator::Eq => {},
        Operator::Neq => {},
        Operator::Gt => {},
        Operator::Gte => {},
        Operator::Lt => {},
        Operator::Lte => {},
        Operator::And => {},
        Operator::Or => {},
    }
}

/// Whether the stacks are in order: the operators bind the more tightly the
/// higher they lie; each operand is ordered, fits to the right of the operator
/// below it and to the left of the operator above it.
pub open spec fn stacks_ordered(st: ShuntView) -> bool {
    let n = st.operators.len();
    let m = st.output.len();
    &&& (m == n || m == n + 1)
    &&& forall|i: int| 0 <= i < m ==> precedence_ordered(#[trigger] st.output[i])
    &&& forall|i: int, j: int|
        0 <= i < j < n ==> precedence(#[trigger] st.operators[i]) < precedence(
            #[trigger] st.operators[j],
        )
    &&& forall|i: int|
        1 <= i < m ==> fits_right(#[trigger] st.output[i], precedence(st.operators[i - 1]))
    &&& forall|i: int|
        0 <= i < n && i < m ==> fits_left(#[trigger] st.output[i], precedence(st.operators[i]))
}

/// Applying operators keeps the stacks in order, and leaves on top an operand
/// that fits to the left of an operator that binds as tightly as `prec`,
/// above operators that bind less tightly.
pub proof fn lemma_reduce_ordered(st: ShuntView, prec: u8)
    requires
        stacks_ordered(st),
        st.output.len() == st.operators.len() + 1,
        fits_left(st.output.last(), prec),
    ensures
        st.reduce_above(prec) matches Ok(s) ==> {
            &&& stacks_ordered(s)
            &&& s.output.len() == s.operators.len() + 1
            &&& fits_left(s.output.last(), prec)
            &&& (s.operators.len() == 0 || precedence(s.operators.last()) < prec)
        },
    decreases st.operators.len(),
{
    if !(st.operators.len() == 0 || precedence(st.operators.last()) < prec) && st.output.len() >= 2 {
        let n = st.operators.len() as int;
        let op = st.operators.last();
        let left = st.output[n - 1];
        let right = st.output[n];
        let next = st.reduce();
        assert(fits_left(left, precedence(op)));
        assert(fits_right(right, precedence(op)));
        lemma_node_precedence(op, st.pending, left, right);
        let node = binary_node(op, st.pending, left, right);
        assert(next.output =~= st.output.take(n - 1).push(node));
        assert(next.operators =~= st.operators.take(n - 1));
        assert forall|i: int| 0 <= i < next.output.len() implies precedence_ordered(
            #[trigger] next.output[i],
        ) by {
            if i < n - 1 {
                assert(next.output[i] == st.output[i]);
            }
        }
        assert forall|i: int| 1 <= i < next.output.len() implies fits_right(
            #[trigger] next.output[i],
            precedence(next.operators[i - 1]),
        ) by {
            if i < n - 1 {
                assert(next.output[i] == st.output[i]);
                assert(fits_right(st.output[i], precedence(st.operators[i - 1])));
            } else {
                assert(precedence(st.operators[n - 2]) < precedence(st.operators[n - 1]));
            }
        }
        assert forall|i: int| 0 <= i < next.operators.len() && i < next.output.len() implies fits_left(
            #[trigger] next.output[i],
            precedence(next.operators[i]),
        ) by {
            assert(next.output[i] == st.output[i]);
            assert(fits_left(st.output[i], precedence(st.operators[i])));
        }
        assert forall|i: int, j: int| 0 <= i < j < next.operators.len() implies precedence(
            #[trigger] next.operators[i],
        ) < precedence(#[trigger] next.operators[j]) by {
            assert(precedence(st.operators[i]) < precedence(st.operators[j]));
        }
        assert(stacks_ordered(next));
        lemma_reduce_ordered(next, prec);
    }
}

/// Pushing an operand that applies no operator and is ordered keeps the
/// stacks in order.
pub proof fn lemma_operand_ordered(st: ShuntView, e: ExprView, pending: Seq<TokenView>)
    requires
        stacks_ordered(st),
        st.output.len() == st.operators.len(),
        node_precedence(e) is None,
        precedence_ordered(e),
    ensures
        stacks_ordered(ShuntView { pending, output: st.output.push(e), operators: st.operators }),
{
    let next = ShuntView { pending, output: st.output.push(e), operators: st.operators };
    let m = st.output.len() as int;
    assert forall|i: int| 0 <= i < next.output.len() implies precedence_ordered(
        #[trigger] next.output[i],
    ) by {
        if i < m {
            assert(next.output[i] == st.output[i]);
        }
    }
    assert forall|i: int| 1 <= i < next.output.len() implies fits_right(
        #[trigger] next.output[i],
        precedence(next.operators[i - 1]),
    ) by {
        if i < m {
            assert(next.output[i] == st.output[i]);
            assert(fits_right(st.output[i], precedence(st.operators[i - 1])));
        }
    }
    assert forall|i: int| 0 <= i < next.operators.len() && i < next.output.len() implies fits_left(
        #[trigger] next.output[i],
        precedence(next.operators[i]),
    ) by {
        assert(next.output[i] == st.output[i]);
        assert(fits_left(st.output[i], precedence(st.operators[i])));
    }
}

/// Pushing an operator that binds more tightly than those below it, above an
/// operand that fits to its left, keeps the stacks in order.
pub proof fn lemma_operator_ordered(st: ShuntView, op: Operator)
    requires
        stacks_ordered(st),
        st.output.len() == st.operators.len() + 1,
        fits_left(st.output.last(), precedence(op)),
        st.operators.len() == 0 || precedence(st.operators.last()) < precedence(op),
    ensures
        stacks_ordered(st.push_operator(op)),
{
    let next = st.push_operator(op);
    let n = st.operators.len() as int;
    assert forall|i: int, j: int| 0 <= i < j < next.operators.len() implies precedence(
        #[trigger] next.operators[i],
    ) < precedence(#[trigger] next.operators[j]) by {
        if j < n {
            assert(precedence(st.operators[i]) < precedence(st.operators[j]));
        } else if i < n - 1 {
            assert(precedence(st.operators[i]) < precedence(st.operators[n - 1]));
        }
    }
    assert forall|i: int| 1 <= i < next.output.len() implies fits_right(
        #[trigger] next.output[i],
        precedence(next.operators[i - 1]),
    ) by {
        assert(fits_right(st.output[i], precedence(st.operators[i - 1])));
    }
    assert forall|i: int| 0 <= i < next.operators.len() && i < next.output.len() implies fits_left(
        #[trigger] next.output[i],
        precedence(next.operators[i]),
    ) by {
        if i < n {
            assert(fits_left(st.output[i], precedence(st.operators[i])));
        }
    }
}

/// The expression that plain tokens form is ordered.
pub proof fn lemma_expression_ordered(ctx: ContextView)
    requires
        plain(ctx.tokens, true),
    ensures
        parse_expression_spec(ctx).result matches Some(e) ==> precedence_ordered(e),
    decreases ctx.tokens.len(), 1int,
{
    if ctx.tokens.len() > 0 {
        lemma_loop_ordered(ctx, ShuntView::empty(), ctx.tokens[0].info);
    }
}

/// The rest of a parse of plain tokens over stacks that are in order gives an
/// ordered expression.
pub proof fn lemma_loop_ordered(ctx: ContextView, st: ShuntView, anchor: TokenInfo)
    requires
        stacks_ordered(st),
        plain(ctx.tokens, st.output.len() == st.operators.len()),
        st.output.len() == st.operators.len() + 1 ==> node_precedence(st.output.last()) is None,
    ensures
        expression_loop(ctx, st, anchor).result matches Some(e) ==> precedence_ordered(e),
    decreases ctx.tokens.len(), 0int,
{
    if ctx.tokens.len() == 0 {
        lemma_reduce_ordered(st, 0);
    } else {
        let t = ctx.tokens[0];
        let rest = ctx.advance();
        let read = st.read(t);
        match t.payload {
            Payload::IntegerLiteral(value) => {
                let e = ExprView::Literal {
                    tokens: read.pending,
                    literal: LiteralView::Integer(value),
                };
                lemma_operand_ordered(st, e, Seq::empty());
                lemma_loop_ordered(rest, read.operand(e), anchor);
            },
            Payload::BooleanLiteral(value) => {
                let e = ExprView::Literal {
                    tokens: read.pending,
                    literal: LiteralView::Boolean(value),
                };
                lemma_operand_ordered(st, e, Seq::empty());
                lemma_loop_ordered(rest, read.operand(e), anchor);
            },
            Payload::Arithmetic(_) | Payload::Comparison(_) | Payload::Boolean(_) => {
                let op = operator_of(t.payload)->0;
                assert(stacks_ordered(read));
                lemma_reduce_ordered(read, precedence(op));
                match read.reduce_above(precedence(op)) {
                    Ok(reduced) => {
                        lemma_operator_ordered(reduced, op);
                        lemma_loop_ordered(rest, reduced.push_operator(op), anchor);
                    },
                    Err(_) => {},
                }
            },
            Payload::Identifier(name) => {
                if name == "invoke"@ {
                    match call_head(rest, read) {
                        CallHead::Found { name: callee, signature, begin, inner, after, tokens } => {
                            lemma_call_head_shorter(rest, read);
                            assert(rest.tokens.skip(1).skip(1) =~= ctx.tokens.skip(3));
                            let window = after.window(inner);
                            lemma_arguments_ordered(window, begin);
                            let args = parse_arguments_spec(window, begin);
                            let merged = after.merge(args.errors);
                            match args.result {
                                Some(passed) => {
                                    let e = ExprView::FunctionCall {
                                        tokens,
                                        vtype: signature.return_type,
                                        name: callee,
                                        args: passed,
                                    };
                                    lemma_operand_ordered(st, e, Seq::empty());
                                    lemma_loop_ordered(merged, read.operand(e), anchor);
                                },
                                None => {},
                            }
                        },
                        _ => {},
                    }
                } else {
                    match (ctx.table.get_id(name), ctx.table.lookup(name)) {
                        (Some(id), Some(vtype)) => {
                            let e = ExprView::Variable { tokens: read.pending, vtype, id };
                            lemma_operand_ordered(st, e, Seq::empty());
                            lemma_loop_ordered(rest, read.operand(e), anchor);
                        },
                        _ => {},
                    }
                }
            },
            _ => {},
        }
    }
}

/// The arguments that plain argument windows form are ordered.
pub proof fn lemma_arguments_ordered(ctx: ContextView, fallback: TokenInfo)
    requires
        plain_arguments(ctx.tokens),
    ensures
        parse_arguments_spec(ctx, fallback).result matches Some(es) ==> forall|i: int|
            0 <= i < es.len() ==> precedence_ordered(#[trigger] es[i]),
    decreases ctx.tokens.len(), 2int,
{
    if ctx.tokens.len() > 0 {
        lemma_comma_at_bounds(ctx.tokens, 0, 0);
        let window = first_argument(ctx.tokens);
        lemma_expression_ordered(ctx.window(window));
        let first = parse_expression_spec(ctx.window(window));
        let errors = ctx.errors + first.ctx.errors;
        match first.result {
            Some(e) => {
                let later_ctx = ctx.with_tokens(later_arguments(ctx.tokens)).with_errors(errors);
                lemma_arguments_ordered(later_ctx, fallback);
                let later = parse_arguments_spec(later_ctx, fallback);
                match later.result {
                    Some(es) => {
                        let all = seq![e] + es;
                        assert forall|i: int| 0 <= i < all.len() implies precedence_ordered(
                            #[trigger] all[i],
                        ) by {
                            if i > 0 {
                                assert(all[i] == es[i - 1]);
                            }
                        }
                    },
                    None => {},
                }
            },
            None => {},
        }
    }
}

/// In an expression without grouping parentheses, where operands and
/// operators stand in turn, precedence shapes the tree: the left operand of
/// every node binds at least as tightly as the node, and the right operand
/// more tightly.
pub proof fn law_precedence_shapes_the_tree(ctx: ContextView)
    requires
        plain(ctx.tokens, true),
    ensures
        parse_expression_spec(ctx).result matches Some(e) ==> precedence_ordered(e),
{
    lemma_expression_ordered(ctx);
}

} // verus!
