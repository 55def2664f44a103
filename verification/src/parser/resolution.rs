//! Names are resolved: what the expression parser puts into the tree, it found
//! in the symbol table.

use vstd::prelude::*;
use crate::ast::expression::ExprView;
use crate::ast::literal::LiteralView;
use crate::ast::properties::calls_resolved;
use crate::ast::properties::ids_bound;
use crate::ast::properties::registered;
use crate::data::syms::Symbol;
use crate::data::vtype::SignatureView;
use crate::parser::grammar::CallHead;
use crate::parser::grammar::ContextView;
use crate::parser::grammar::Operator;
use crate::parser::grammar::ShuntView;
use crate::parser::grammar::argument_count;
use crate::parser::grammar::binary_node;
use crate::parser::grammar::call_head;
use crate::parser::grammar::closing;
use crate::parser::grammar::expression_loop;
use crate::parser::grammar::first_argument;
use crate::parser::grammar::later_arguments;
use crate::parser::grammar::lemma_call_head_shorter;
use crate::parser::grammar::lemma_closing_bounds;
use crate::parser::grammar::lemma_comma_at_bounds;
use crate::parser::grammar::operator_of;
use crate::parser::grammar::parse_arguments_spec;
use crate::parser::grammar::parse_expression_spec;
use crate::parser::grammar::precedence;
use crate::parser::symbols_table::BindingView;
use crate::parser::symbols_table::TableView;
use crate::parser::symbols_table::binding_id;
use crate::parser::symbols_table::find_function;
use crate::parser::token::Payload;
use crate::parser::token::TokenInfo;
use crate::parser::token::TokenView;

verus! {

/// The ids that `bindings` bind.
pub open spec fn bound_ids(bindings: Seq<BindingView>) -> Set<u16> {
    Set::new(|id: u16| exists|i: int| 0 <= i < bindings.len() && (#[trigger] bindings[i]).id == id)
}

/// The ids that the innermost scope of `table` binds.
pub open spec fn visible_ids(table: TableView) -> Set<u16> {
    if table.scopes.len() == 0 {
        Set::empty()
    } else {
        bound_ids(table.scopes[0].bindings)
    }
}

/// Whether every call in `e` names a signature of `table` with as many
/// parameters as it passes arguments, and every variable in `e` has an id
/// that the innermost scope of `table` binds.
pub open spec fn resolved_in(e: ExprView, table: TableView) -> bool {
    calls_resolved(e, table.functions) && ids_bound(e, visible_ids(table))
}

/// Whether every expression of `es` satisfies [`resolved_in`].
pub open spec fn all_resolved_in(es: Seq<ExprView>, table: TableView) -> bool {
    forall|i: int| 0 <= i < es.len() ==> resolved_in(#[trigger] es[i], table)
}

/// The id that a name is bound to is one that the bindings bind.
pub proof fn lemma_binding_id_bound(bindings: Seq<BindingView>, name: Seq<char>)
    ensures
        binding_id(bindings, name) matches Some(id) ==> bound_ids(bindings).contains(id),
    decreases bindings.len(),
{
    if bindings.len() > 0 {
        if bindings.last().name == name {
            assert(bindings[bindings.len() - 1].id == bindings.last().id);
        } else {
            lemma_binding_id_bound(bindings.drop_last(), name);
            if binding_id(bindings.drop_last(), name) is Some {
                let id = binding_id(bindings.drop_last(), name)->0;
                let i = choose|i: int|
                    0 <= i < bindings.drop_last().len() && (#[trigger] bindings.drop_last()[i]).id
                        == id;
                assert(bindings[i].id == id);
            }
        }
    }
}

/// The signature found under a name stands in the registry and has that
/// name; where none is found, no signature of the registry has that name.
pub proof fn lemma_find_function(functions: Seq<SignatureView>, name: Seq<char>)
    ensures
        match find_function(functions, name) {
            Some(signature) => signature.name == name && exists|i: int|
                0 <= i < functions.len() && #[trigger] functions[i] == signature,
            None => forall|i: int| 0 <= i < functions.len() ==> (#[trigger] functions[i]).name != name,
        },
    decreases functions.len(),
{
    if functions.len() > 0 {
        if functions.last().name == name {
            assert(functions[functions.len() - 1] == functions.last());
        } else {
            lemma_find_function(functions.drop_last(), name);
            match find_function(functions.drop_last(), name) {
                Some(signature) => {
                    let i = choose|i: int|
                        0 <= i < functions.drop_last().len() && #[trigger] functions.drop_last()[i]
                            == signature;
                    assert(functions[i] == signature);
                },
                None => {
                    assert forall|i: int| 0 <= i < functions.len() implies (
                    #[trigger] functions[i]).name != name by {
                        if i < functions.len() - 1 {
                            assert(functions.drop_last()[i] == functions[i]);
                        }
                    }
                },
            }
        }
    }
}

/// A node over two resolved operands is resolved.
pub proof fn lemma_binary_resolved(
    op: Operator,
    tokens: Seq<TokenView>,
    left: ExprView,
    right: ExprView,
    table: TableView,
)
    requires
        resolved_in(left, table),
        resolved_in(right, table),
    ensures
        resolved_in(binary_node(op, tokens, left, right), table),
{
    match op {
        Operator::Add => {},
        Operator::Sub => {},
        Operator::Mul => {},
        Operator::Div => {},
        Operator::Eq => {},
        Operator::Neq => {},
        Operator::Gt => {},
        Operator::Gte => {},
        Operator::Lt => {},
        Operator::Lte => {},
        Operator::And => {},
        Operator::Or => {},
    }
}

/// Applying operators to resolved operands leaves resolved operands.
pub proof fn lemma_reduce_resolved(st: ShuntView, prec: u8, table: TableView)
    requires
        all_resolved_in(st.output, table),
    ensures
        st.reduce_above(prec) matches Ok(s) ==> all_resolved_in(s.output, table),
    decreases st.operators.len(),
{
    if !(st.operators.len() == 0 || precedence(st.operators.last()) < prec) && st.output.len() >= 2 {
        let n = st.output.len();
        lemma_binary_resolved(
            st.operators.last(),
            st.pending,
            st.output[n - 2],
            st.output[n - 1],
            table,
        );
        lemma_reduce_resolved(st.reduce(), prec, table);
    }
}

/// The expression that a parse gives is resolved in the symbol table of its
/// context, which the parse leaves as it is.
pub proof fn lemma_expression_resolved(ctx: ContextView)
    ensures
        parse_expression_spec(ctx).ctx.table == ctx.table,
        parse_expression_spec(ctx).ctx.source == ctx.source,
        parse_expression_spec(ctx).result matches Some(e) ==> resolved_in(e, ctx.table),
    decreases ctx.tokens.len(), 1int,
{
    if ctx.tokens.len() > 0 {
        lemma_loop_resolved(ctx, ShuntView::empty(), ctx.tokens[0].info);
    }
}

/// The rest of a parse over resolved operands gives a resolved expression.
pub proof fn lemma_loop_resolved(ctx: ContextView, st: ShuntView, anchor: TokenInfo)
    requires
        all_resolved_in(st.output, ctx.table),
    ensures
        expression_loop(ctx, st, anchor).ctx.table == ctx.table,
        expression_loop(ctx, st, anchor).ctx.source == ctx.source,
        expression_loop(ctx, st, anchor).result matches Some(e) ==> resolved_in(e, ctx.table),
    decreases ctx.tokens.len(), 0int,
{
    let table = ctx.table;
    if ctx.tokens.len() == 0 {
        lemma_reduce_resolved(st, 0, table);
    } else {
        let t = ctx.tokens[0];
        let rest = ctx.advance();
        let read = st.read(t);
        match t.payload {
            Payload::IntegerLiteral(value) => {
                lemma_loop_resolved(
                    rest,
                    read.operand(
                        ExprView::Literal {
                            tokens: read.pending,
                            literal: LiteralView::Integer(value),
                        },
                    ),
                    anchor,
                );
            },
            Payload::BooleanLiteral(value) => {
                lemma_loop_resolved(
                    rest,
                    read.operand(
                        ExprView::Literal {
                            tokens: read.pending,
                            literal: LiteralView::Boolean(value),
                        },
                    ),
                    anchor,
                );
            },
            Payload::Arithmetic(_) | Payload::Comparison(_) | Payload::Boolean(_) => {
                let op = operator_of(t.payload)->0;
                lemma_reduce_resolved(read, precedence(op), table);
                match read.reduce_above(precedence(op)) {
                    Ok(reduced) => {
                        lemma_loop_resolved(rest, reduced.push_operator(op), anchor);
                    },
                    Err(_) => {},
                }
            },
            Payload::Symbol(Symbol::LeftParen) => {
                let k = closing(rest.tokens, Symbol::LeftParen, Symbol::RightParen, 0, 1);
                if k < rest.tokens.len() {
                    lemma_closing_bounds(rest.tokens, Symbol::LeftParen, Symbol::RightParen, 0, 1);
                    let inner_ctx = rest.window(rest.tokens.take(k));
                    lemma_expression_resolved(inner_ctx);
                    let inner = parse_expression_spec(inner_ctx);
                    let after = rest.with_tokens(rest.tokens.skip(k + 1)).merge(inner.ctx.errors);
                    match inner.result {
                        Some(e) => {
                            lemma_loop_resolved(
                                after,
                                read.read_all(rest.tokens.take(k + 1)).group(e),
                                anchor,
                            );
                        },
                        None => {},
                    }
                }
            },
            Payload::Identifier(name) => {
                if name == "invoke"@ {
                    match call_head(rest, read) {
                        CallHead::Found { name: callee, signature, begin, inner, after, tokens } => {
                            lemma_call_head_shorter(rest, read);
                            lemma_call_head_registered(rest, read);
                            let window = after.window(inner);
                            lemma_arguments_resolved(window, begin);
                            let args = parse_arguments_spec(window, begin);
                            let merged = after.merge(args.errors);
                            match args.result {
                                Some(passed) => {
                                    let e = ExprView::FunctionCall {
                                        tokens,
                                        vtype: signature.return_type,
                                        name: callee,
                                        args: passed,
                                    };
                                    assert(resolved_in(e, table));
                                    lemma_loop_resolved(merged, read.operand(e), anchor);
                                },
                                None => {},
                            }
                        },
                        _ => {},
                    }
                } else {
                    if ctx.table.scopes.len() > 0 {
                        lemma_binding_id_bound(ctx.table.scopes[0].bindings, name);
                    }
                    match (ctx.table.get_id(name), ctx.table.lookup(name)) {
                        (Some(id), Some(vtype)) => {
                            lemma_loop_resolved(
                                rest,
                                read.operand(ExprView::Variable { tokens: read.pending, vtype, id }),
                                anchor,
                            );
                        },
                        _ => {},
                    }
                }
            },
            _ => {},
        }
    }
}

/// The callee that the head of a call finds is registered with as many
/// parameters as the call has argument windows.
pub proof fn lemma_call_head_registered(ctx: ContextView, st: ShuntView)
    ensures
        call_head(ctx, st) matches CallHead::Found { name, inner, .. } ==> registered(
            ctx.table.functions,
            name,
            argument_count(inner),
        ),
{
    match call_head(ctx, st) {
        CallHead::Found { name, signature, .. } => {
            lemma_find_function(ctx.table.functions, name);
            let i = choose|i: int|
                0 <= i < ctx.table.functions.len() && #[trigger] ctx.table.functions[i] == signature;
            assert(ctx.table.functions[i].name == name);
        },
        _ => {},
    }
}

/// The arguments that a parse gives are resolved, and there is one for each
/// argument window.
pub proof fn lemma_arguments_resolved(ctx: ContextView, fallback: TokenInfo)
    ensures
        parse_arguments_spec(ctx, fallback).result matches Some(es) ==> all_resolved_in(es, ctx.table)
            && es.len() == argument_count(ctx.tokens),
    decreases ctx.tokens.len(), 2int,
{
    if ctx.tokens.len() > 0 {
        lemma_comma_at_bounds(ctx.tokens, 0, 0);
        let window = first_argument(ctx.tokens);
        lemma_expression_resolved(ctx.window(window));
        let first = parse_expression_spec(ctx.window(window));
        let errors = ctx.errors + first.ctx.errors;
        match first.result {
            Some(e) => {
                let later_ctx = ctx.with_tokens(later_arguments(ctx.tokens)).with_errors(errors);
                lemma_arguments_resolved(later_ctx, fallback);
                let later = parse_arguments_spec(later_ctx, fallback);
                match later.result {
                    Some(es) => {
                        let all = seq![e] + es;
                        assert forall|i: int| 0 <= i < all.len() implies resolved_in(
                            #[trigger] all[i],
                            ctx.table,
                        ) by {
                            if i > 0 {
                                assert(all[i] == es[i - 1]);
                            }
                        }
                    },
                    None => {},
                }
            },
            None => {},
        }
    }
}

} // verus!
