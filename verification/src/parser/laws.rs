//! What holds of every parse, proved of the functions of the grammar.

use vstd::prelude::*;
use crate::ast::properties::all_calls_resolved;
use crate::ast::properties::all_declares_typed;
use crate::ast::properties::calls_name_earlier_functions;
use crate::ast::properties::declares_typed;
use crate::ast::properties::distinct_names;
use crate::ast::properties::increasing;
use crate::ast::properties::minted_ids_all;
use crate::ast::properties::scoped;
use crate::ast::properties::signatures_of;
use crate::ast::statement::StmtView;
use crate::data::syms::Symbol;
use crate::data::vtype::ParameterView;
use crate::parser::freshness::lemma_block_mints;
use crate::parser::grammar::ContextView;
use crate::parser::grammar::Header;
use crate::parser::grammar::closing;
use crate::parser::grammar::expression_window;
use crate::parser::grammar::function_header;
use crate::parser::grammar::function_signature;
use crate::parser::grammar::is_stop;
use crate::parser::grammar::lemma_closing_bounds;
use crate::parser::grammar::lemma_symbol_at_bounds;
use crate::parser::grammar::parameter_separator;
use crate::parser::grammar::parse_block;
use crate::parser::grammar::parse_compound_spec;
use crate::parser::grammar::parse_let_spec;
use crate::parser::grammar::parse_parameters_spec;
use crate::parser::grammar::parse_plain_spec;
use crate::parser::grammar::parse_return_spec;
use crate::parser::grammar::parse_root_spec;
use crate::parser::grammar::parse_set_spec;
use crate::parser::grammar::parse_statement_spec;
use crate::parser::grammar::recovered;
use crate::parser::grammar::root_context;
use crate::parser::grammar::symbol_at;
use crate::parser::lexer::lex_spec;
use crate::parser::resolution::visible_ids;
use crate::parser::scoping::lemma_root_sound;
use crate::parser::spans::ascending;
use crate::parser::spans::begins_before;
use crate::parser::spans::error_span;
use crate::parser::spans::error_valid;
use crate::parser::spans::errors_valid;
use crate::parser::spans::lemma_block_spans;
use crate::parser::spans::lemma_scan_spans;
use crate::parser::spans::tokens_hold;
use crate::parser::spans::tokens_valid;
use crate::parser::spans::valid_span;
use crate::parser::symbols_table::ScopeView;
use crate::parser::token::Payload;
use crate::parser::token::TokenInfo;
use crate::parser::token::TokenView;

verus! {

// ---------------------------------------------------------------------------
// Progress: every statement takes at least one token
// ---------------------------------------------------------------------------
/// Recovery never adds tokens.
pub proof fn lemma_recovered_shorter(tokens: Seq<TokenView>)
    ensures
        recovered(tokens).len() <= tokens.len(),
    decreases tokens.len(),
{
    if tokens.len() > 0 && !is_stop(tokens[0]) {
        lemma_recovered_shorter(tokens.skip(1));
    }
}

/// Reading the expression of a statement never adds tokens.
pub proof fn lemma_window_shorter(ctx: ContextView)
    ensures
        expression_window(ctx).ctx.tokens.len() <= ctx.tokens.len(),
{
    lemma_symbol_at_bounds(ctx.tokens, Symbol::Semicolon, 0);
}

/// A parse of parameters never adds tokens to its context.
pub proof fn lemma_parameters_shorter(
    ctx: ContextView,
    window: Seq<TokenView>,
    read: Seq<TokenView>,
    parameters: Seq<ParameterView>,
)
    ensures
        parse_parameters_spec(ctx, window, read, parameters).ctx.tokens.len() <= ctx.tokens.len(),
    decreases window.len(),
{
    lemma_recovered_shorter(ctx.tokens);
    if window.len() >= 2 {
        match (window[0].payload, window[1].payload) {
            (Payload::Identifier(name), Payload::Type(vtype)) => {
                if parameter_separator(window) is None && ctx.table.can_define() {
                    lemma_parameters_shorter(
                        ctx.with_table(ctx.table.define(name, vtype)),
                        window.skip(
                            if window.len() == 2 {
                                2
                            } else {
                                3
                            },
                        ),
                        if window.len() == 2 {
                            read.push(window[1])
                        } else {
                            read.push(window[1]).push(window[2])
                        },
                        parameters.push(ParameterView { id: ctx.table.next_id, vtype }),
                    );
                }
            },
            _ => {},
        }
    }
}

/// The head of a function statement never adds tokens.
pub proof fn lemma_header_tokens(ctx: ContextView, keyword: TokenView)
    ensures
        match function_header(ctx, keyword) {
            Header::Failed { ctx: c } => c.tokens.len() <= ctx.tokens.len(),
            Header::Declared { ctx: c, .. } => c.tokens.len() <= ctx.tokens.len(),
            Header::Opened { ctx: c, .. } => c.tokens.len() < ctx.tokens.len(),
        },
{
    lemma_recovered_shorter(ctx.tokens);
    if ctx.tokens.len() >= 1 {
        let c1 = ctx.advance();
        lemma_recovered_shorter(c1.tokens);
        if c1.tokens.len() >= 1 {
            let c2 = c1.advance();
            lemma_recovered_shorter(c2.tokens);
            match (ctx.tokens[0].payload, c1.tokens[0].payload) {
                (Payload::Identifier(name), Payload::Symbol(Symbol::LeftParen)) => {
                    lemma_signature_tokens(
                        c2,
                        seq![keyword, ctx.tokens[0], c1.tokens[0]],
                        ctx.tokens[0],
                        name,
                    );
                },
                _ => {},
            }
        }
    }
}

/// The rest of a function's head never adds tokens.
pub proof fn lemma_signature_tokens(
    ctx: ContextView,
    read: Seq<TokenView>,
    name_token: TokenView,
    name: Seq<char>,
)
    ensures
        match function_signature(ctx, read, name_token, name) {
            Header::Failed { ctx: c } => c.tokens.len() <= ctx.tokens.len(),
            Header::Declared { ctx: c, .. } => c.tokens.len() <= ctx.tokens.len(),
            Header::Opened { ctx: c, .. } => c.tokens.len() <= ctx.tokens.len(),
        },
{
    lemma_symbol_at_bounds(ctx.tokens, Symbol::RightParen, 0);
    let k = symbol_at(ctx.tokens, Symbol::RightParen, 0);
    let closed = k < ctx.tokens.len();
    let behind = ctx.with_tokens(
        if closed {
            ctx.tokens.skip(k + 1)
        } else {
            Seq::empty()
        },
    ).with_table(ctx.table.push_scope());
    let read_list = read + (if closed {
        ctx.tokens.take(k + 1)
    } else {
        ctx.tokens
    });
    let list = parse_parameters_spec(behind, ctx.tokens.take(k), read_list, Seq::empty());
    lemma_parameters_shorter(behind, ctx.tokens.take(k), read_list, Seq::empty());
    lemma_recovered_shorter(list.ctx.tokens);
    if list.ok && list.ctx.tokens.len() >= 1 {
        let c1 = list.ctx.advance();
        lemma_recovered_shorter(c1.tokens);
        if c1.tokens.len() >= 1 {
            lemma_recovered_shorter(c1.advance().tokens);
        }
    }
}

/// A compound statement takes at least its closing brace, or everything.
pub proof fn lemma_compound_tokens(ctx: ContextView, brace: TokenView, manage_scope: bool)
    ensures
        parse_compound_spec(ctx, brace, manage_scope).ctx.tokens.len() <= ctx.tokens.len(),
{
    lemma_closing_bounds(ctx.tokens, Symbol::LeftBrace, Symbol::RightBrace, 0, 1);
    lemma_recovered_shorter(Seq::<TokenView>::empty());
}

/// The statements that a keyword names never add tokens.
pub proof fn lemma_keyword_tokens(ctx: ContextView, keyword: TokenView, word: Seq<char>)
    ensures
        parse_return_spec(ctx, keyword).ctx.tokens.len() <= ctx.tokens.len(),
        parse_plain_spec(ctx, keyword, word).ctx.tokens.len() <= ctx.tokens.len(),
        parse_let_spec(ctx, keyword).ctx.tokens.len() <= ctx.tokens.len(),
        parse_set_spec(ctx, keyword).ctx.tokens.len() <= ctx.tokens.len(),
{
    lemma_recovered_shorter(ctx.tokens);
    lemma_window_shorter(ctx);
    lemma_recovered_shorter(expression_window(ctx).ctx.tokens);
    if ctx.tokens.len() >= 1 {
        let c1 = ctx.advance();
        lemma_recovered_shorter(c1.tokens);
        if c1.tokens.len() >= 1 {
            let c2 = c1.advance();
            lemma_recovered_shorter(c2.tokens);
            lemma_window_shorter(c2);
            lemma_recovered_shorter(expression_window(c2).ctx.tokens);
            if c2.tokens.len() >= 1 {
                let c3 = c2.advance();
                lemma_recovered_shorter(c3.tokens);
                lemma_window_shorter(c3);
                lemma_recovered_shorter(expression_window(c3).ctx.tokens);
            }
        }
    }
}

/// Every statement takes at least one token: a run of statements reads its
/// tokens to the end.
pub proof fn lemma_statement_progress(ctx: ContextView, manage_scope: bool)
    requires
        ctx.tokens.len() > 0,
    ensures
        parse_statement_spec(ctx, manage_scope).ctx.tokens.len() < ctx.tokens.len(),
{
    let t = ctx.tokens[0];
    let rest = ctx.advance();
    lemma_recovered_shorter(rest.tokens);
    lemma_compound_tokens(rest, t, manage_scope);
    match t.payload {
        Payload::Identifier(word) => {
            lemma_keyword_tokens(rest, t, word);
            lemma_header_tokens(rest, t);
            match function_header(rest, t) {
                Header::Opened { ctx: behind, brace, .. } => {
                    lemma_compound_tokens(behind, brace, false);
                },
                _ => {},
            }
        },
        _ => {},
    }
}

// ---------------------------------------------------------------------------
// Declarations have a type
// ---------------------------------------------------------------------------
/// A statement that was parsed declares no variable of type `Void`.
pub proof fn lemma_statement_typed(ctx: ContextView, manage_scope: bool)
    ensures
        parse_statement_spec(ctx, manage_scope).result matches Some(s) ==> declares_typed(s),
    decreases ctx.tokens.len(), 0int,
{
    if ctx.tokens.len() > 0 {
        let t = ctx.tokens[0];
        let rest = ctx.advance();
        match t.payload {
            Payload::Symbol(Symbol::LeftBrace) => {
                lemma_compound_typed(rest, t, manage_scope);
            },
            Payload::Identifier(word) => {
                if word == "function"@ {
                    match function_header(rest, t) {
                        Header::Opened { ctx: behind, brace, .. } => {
                            lemma_header_tokens(rest, t);
                            lemma_compound_typed(behind, brace, false);
                        },
                        _ => {},
                    }
                }
            },
            _ => {},
        }
    }
}

/// A compound statement that was parsed declares no variable of type `Void`.
pub proof fn lemma_compound_typed(ctx: ContextView, brace: TokenView, manage_scope: bool)
    ensures
        parse_compound_spec(ctx, brace, manage_scope).result matches Some(s) ==> declares_typed(s),
    decreases ctx.tokens.len(), 2int,
{
    let k = closing(ctx.tokens, Symbol::LeftBrace, Symbol::RightBrace, 0, 1);
    if k < ctx.tokens.len() {
        lemma_closing_bounds(ctx.tokens, Symbol::LeftBrace, Symbol::RightBrace, 0, 1);
        let inner = ctx.window(ctx.tokens.take(k)).with_table(
            if manage_scope {
                ctx.table.push_scope()
            } else {
                ctx.table
            },
        );
        lemma_block_typed(inner, Seq::empty());
    }
}

/// A run of statements that was parsed declares no variable of type `Void`.
pub proof fn lemma_block_typed(ctx: ContextView, done: Seq<StmtView>)
    requires
        all_declares_typed(done),
    ensures
        all_declares_typed(parse_block(ctx, done).statements),
    decreases ctx.tokens.len(), 1int,
{
    if ctx.tokens.len() > 0 {
        let one = parse_statement_spec(ctx, true);
        lemma_statement_typed(ctx, true);
        let added = match one.result {
            Some(s) => done.push(s),
            None => done,
        };
        if one.ctx.tokens.len() < ctx.tokens.len() {
            lemma_block_typed(one.ctx, added);
        }
    }
}

/// In the tree of every source text, every declaration gives its variable a
/// type other than `Void`.
pub proof fn law_declarations_have_a_type(source: Seq<char>)
    ensures
        all_declares_typed(parse_root_spec(source).statements),
{
    lemma_block_typed(root_context(source), Seq::empty());
}

// ---------------------------------------------------------------------------
// Names are resolved
// ---------------------------------------------------------------------------
/// The parse of a source text begins where [`lemma_root_sound`] applies.
proof fn lemma_root_ready(source: Seq<char>)
    ensures
        root_context(source).table.depth() == 1,
        visible_ids(root_context(source).table).subset_of(Set::empty()),
        root_context(source).table.functions == signatures_of(Seq::empty()),
        distinct_names(root_context(source).table.functions),
{
    let table = root_context(source).table;
    assert(table.scopes =~= seq![ScopeView::empty()]);
    assert(table.functions =~= signatures_of(Seq::empty()));
}

/// In the tree of every source text, no two function statements carry
/// signatures of the same name.
pub proof fn law_function_names_are_distinct(source: Seq<char>)
    ensures
        distinct_names(signatures_of(parse_root_spec(source).statements)),
{
    lemma_root_ready(source);
    lemma_root_sound(root_context(source), Seq::empty());
}

/// In the tree of every source text, every call names the signature of a
/// function statement of the tree, and passes as many arguments as that
/// signature has parameters.
pub proof fn law_calls_are_resolved(source: Seq<char>)
    ensures
        all_calls_resolved(
            parse_root_spec(source).statements,
            signatures_of(parse_root_spec(source).statements),
        ),
{
    lemma_root_ready(source);
    lemma_root_sound(root_context(source), Seq::empty());
}

/// In the tree of every source text, every call names the signature of a
/// function statement that stands before the top-level statement with the
/// call, or is that statement: no call reaches forward.
pub proof fn law_calls_name_earlier_functions(source: Seq<char>)
    ensures
        calls_name_earlier_functions(parse_root_spec(source).statements),
{
    lemma_root_ready(source);
    lemma_root_sound(root_context(source), Seq::empty());
}

/// In the tree of every source text, every variable that a top-level
/// statement reads or assigns has the id of a declaration that stands before
/// it in that statement, or of a parameter of the function that the statement
/// defines.
pub proof fn law_variables_are_declared(source: Seq<char>)
    ensures
        forall|i: int|
            0 <= i < parse_root_spec(source).statements.len() ==> scoped(
                #[trigger] parse_root_spec(source).statements[i],
                Set::empty(),
            ),
{
    lemma_root_ready(source);
    lemma_root_sound(root_context(source), Seq::empty());
}

/// In the tree of every source text, the ids of the parameters and of the
/// declarations, in the order in which they stand in the tree, are each less
/// than the next: no two are the same.
pub proof fn law_ids_are_fresh(source: Seq<char>)
    ensures
        increasing(minted_ids_all(parse_root_spec(source).statements)),
{
    lemma_block_mints(root_context(source), Seq::empty(), 0);
}

// ---------------------------------------------------------------------------
// Spans
// ---------------------------------------------------------------------------
/// The tokens of every source text have valid spans, and each begins before
/// the next.
pub proof fn law_tokens_ascend(source: Seq<char>)
    requires
        source.len() <= usize::MAX,
    ensures
        tokens_valid(lex_spec(source)),
        ascending(lex_spec(source)),
{
    lemma_scan_spans(source, 0, 1, 1);
}

/// Whether `info` is the span of one of `tokens`.
pub open spec fn is_span_of(tokens: Seq<TokenView>, info: TokenInfo) -> bool {
    exists|i: int| 0 <= i < tokens.len() && (#[trigger] tokens[i]).info == info
}

/// Every diagnostic of every source text is pinned to the span of a token of
/// that text.
pub proof fn law_diagnostics_point_at_tokens(source: Seq<char>)
    ensures
        forall|i: int|
            0 <= i < parse_root_spec(source).ctx.errors.len() ==> is_span_of(
                lex_spec(source),
                error_span(#[trigger] parse_root_spec(source).ctx.errors[i]),
            ),
{
    let tokens = lex_spec(source);
    let p = |info: TokenInfo| is_span_of(tokens, info);
    assert(tokens_hold(p, tokens)) by {
        assert forall|i: int| 0 <= i < tokens.len() implies p((#[trigger] tokens[i]).info) by {
            assert(is_span_of(tokens, tokens[i].info));
        }
    }
    lemma_block_spans(p, root_context(source), Seq::empty());
    let errors = parse_root_spec(source).ctx.errors;
    assert forall|i: int| 0 <= i < errors.len() implies is_span_of(
        tokens,
        error_span(#[trigger] errors[i]),
    ) by {
        assert(p(error_span(errors[i])));
    }
}

/// Every diagnostic of every source text has a span on a line counted from 1
/// that ends where it begins or behind.
pub proof fn law_diagnostic_spans(source: Seq<char>)
    requires
        source.len() <= usize::MAX,
    ensures
        errors_valid(parse_root_spec(source).ctx.errors),
{
    law_tokens_ascend(source);
    law_diagnostics_point_at_tokens(source);
    let tokens = lex_spec(source);
    let errors = parse_root_spec(source).ctx.errors;
    assert forall|i: int| 0 <= i < errors.len() implies error_valid(#[trigger] errors[i]) by {
        let info = error_span(errors[i]);
        assert(is_span_of(tokens, info));
        let k = choose|k: int| 0 <= k < tokens.len() && (#[trigger] tokens[k]).info == info;
        assert(valid_span(tokens[k].info));
    }
}

/// Where the diagnostics of a source text follow the order of the tokens that
/// they are pinned to, the one at `positions[i]` for the `i`-th, each begins
/// before the next.
pub proof fn law_diagnostics_ascend_in_source_order(source: Seq<char>, positions: Seq<int>)
    requires
        source.len() <= usize::MAX,
        positions.len() == parse_root_spec(source).ctx.errors.len(),
        forall|i: int|
            0 <= i < positions.len() ==> 0 <= #[trigger] positions[i] < lex_spec(source).len()
                && lex_spec(source)[positions[i]].info == error_span(
                parse_root_spec(source).ctx.errors[i],
            ),
        forall|i: int, j: int|
            0 <= i < j < positions.len() ==> #[trigger] positions[i] < #[trigger] positions[j],
    ensures
        forall|i: int, j: int|
            0 <= i < j < parse_root_spec(source).ctx.errors.len() ==> begins_before(
                error_span(#[trigger] parse_root_spec(source).ctx.errors[i]),
                error_span(#[trigger] parse_root_spec(source).ctx.errors[j]),
            ),
{
    law_tokens_ascend(source);
    let tokens = lex_spec(source);
    let errors = parse_root_spec(source).ctx.errors;
    assert forall|i: int, j: int| 0 <= i < j < errors.len() implies begins_before(
        error_span(#[trigger] errors[i]),
        error_span(#[trigger] errors[j]),
    ) by {
        assert(positions[i] < positions[j]);
        assert(begins_before(tokens[positions[i]].info, tokens[positions[j]].info));
    }
}

} // verus!
