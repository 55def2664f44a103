//! Spans are in order: those of the tokens that the lexer gives, and with
//! them those of the diagnostics.

use vstd::prelude::*;
use crate::ast::expression::ExprView;
use crate::ast::literal::LiteralView;
use crate::ast::statement::StmtView;
use crate::data::syms::Symbol;
use crate::data::vtype::ParameterView;
use crate::parser::grammar::CallHead;
use crate::parser::grammar::ContextView;
use crate::parser::grammar::ErrorView;
use crate::parser::grammar::Header;
use crate::parser::grammar::ShuntView;
use crate::parser::grammar::call_head;
use crate::parser::grammar::closing;
use crate::parser::grammar::comma_at;
use crate::parser::grammar::expression_loop;
use crate::parser::grammar::expression_window;
use crate::parser::grammar::first_argument;
use crate::parser::grammar::function_header;
use crate::parser::grammar::function_signature;
use crate::parser::grammar::is_stop;
use crate::parser::grammar::later_arguments;
use crate::parser::grammar::lemma_call_head_shorter;
use crate::parser::grammar::lemma_closing_bounds;
use crate::parser::grammar::lemma_comma_at_bounds;
use crate::parser::grammar::lemma_symbol_at_bounds;
use crate::parser::grammar::operator_of;
use crate::parser::grammar::parameter_separator;
use crate::parser::grammar::parse_arguments_spec;
use crate::parser::grammar::parse_block;
use crate::parser::grammar::parse_compound_spec;
use crate::parser::grammar::parse_expression_spec;
use crate::parser::grammar::parse_let_spec;
use crate::parser::grammar::parse_parameters_spec;
use crate::parser::grammar::parse_plain_spec;
use crate::parser::grammar::parse_return_spec;
use crate::parser::grammar::parse_set_spec;
use crate::parser::grammar::parse_statement_spec;
use crate::parser::grammar::precedence;
use crate::parser::grammar::recovered;
use crate::parser::grammar::symbol_at;
use crate::parser::laws::lemma_header_tokens;
use crate::parser::lexer::digits_end;
use crate::parser::lexer::is_digit;
use crate::parser::lexer::is_word_start;
use crate::parser::lexer::lemma_digits_end_bounds;
use crate::parser::lexer::lemma_word_end_bounds;
use crate::parser::lexer::paired_payload;
use crate::parser::lexer::scan;
use crate::parser::lexer::single_payload;
use crate::parser::lexer::word_end;
use crate::parser::token::Payload;
use crate::parser::token::TokenInfo;
use crate::parser::token::TokenView;

verus! {

/// Whether a span lies on a line and at columns counted from 1, and ends
/// where it begins or behind.
pub open spec fn valid_span(info: TokenInfo) -> bool {
    info.line >= 1 && info.column_begin >= 1 && info.column_begin <= info.column_end
}

/// Whether every token of `tokens` has a valid span.
pub open spec fn tokens_valid(tokens: Seq<TokenView>) -> bool {
    forall|i: int| 0 <= i < tokens.len() ==> valid_span((#[trigger] tokens[i]).info)
}

/// Whether the span of a diagnostic lies on a line counted from 1 and ends
/// where it begins or behind.
pub open spec fn error_valid(e: ErrorView) -> bool {
    e.line >= 1 && e.column_begin <= e.column_end
}

/// Whether every diagnostic of `errors` has a valid span.
pub open spec fn errors_valid(errors: Seq<ErrorView>) -> bool {
    forall|i: int| 0 <= i < errors.len() ==> error_valid(#[trigger] errors[i])
}

/// Whether the span `a` begins before the span `b` begins.
pub open spec fn begins_before(a: TokenInfo, b: TokenInfo) -> bool {
    a.line < b.line || (a.line == b.line && a.column_begin < b.column_begin)
}

/// Whether each token of `tokens` begins before the next.
pub open spec fn ascending(tokens: Seq<TokenView>) -> bool {
    forall|i: int, j: int|
        0 <= i < j < tokens.len() ==> begins_before(
            (#[trigger] tokens[i]).info,
            (#[trigger] tokens[j]).info,
        )
}

/// Whether the span `info` begins at `column` of `line` or behind.
pub open spec fn at_or_behind(info: TokenInfo, line: nat, column: nat) -> bool {
    info.line > line || (info.line == line && info.column_begin >= column)
}

/// Whether every token of `tokens` begins at `column` of `line` or behind.
pub open spec fn all_behind(tokens: Seq<TokenView>, line: nat, column: nat) -> bool {
    forall|i: int| 0 <= i < tokens.len() ==> at_or_behind((#[trigger] tokens[i]).info, line, column)
}

/// A token followed by tokens that all begin behind it, and that ascend,
/// gives tokens that ascend.
proof fn lemma_prepend_ascends(t: TokenView, rest: Seq<TokenView>, line: nat, column: nat, len: nat)
    requires
        len >= 1,
        column >= 1,
        t.info.line == line,
        t.info.column_begin == column,
        t.info.column_end == column + len - 1,
        line >= 1,
        tokens_valid(rest),
        ascending(rest),
        all_behind(rest, line, column + len),
    ensures
        tokens_valid(seq![t] + rest),
        ascending(seq![t] + rest),
        all_behind(seq![t] + rest, line, column),
{
    let all = seq![t] + rest;
    assert forall|i: int| 0 <= i < all.len() implies valid_span((#[trigger] all[i]).info)
        && at_or_behind(all[i].info, line, column) by {
        if i > 0 {
            assert(all[i] == rest[i - 1]);
        }
    }
    assert forall|i: int, j: int| 0 <= i < j < all.len() implies begins_before(
        (#[trigger] all[i]).info,
        (#[trigger] all[j]).info,
    ) by {
        assert(all[j] == rest[j - 1]);
        if i > 0 {
            assert(all[i] == rest[i - 1]);
        }
    }
}

/// Tokens that begin behind a place begin behind every place before it.
proof fn lemma_behind_earlier(tokens: Seq<TokenView>, line: nat, column: nat, line2: nat, column2: nat)
    requires
        all_behind(tokens, line, column),
        line2 < line || (line2 == line && column2 <= column),
    ensures
        all_behind(tokens, line2, column2),
{
    assert forall|i: int| 0 <= i < tokens.len() implies at_or_behind(
        (#[trigger] tokens[i]).info,
        line2,
        column2,
    ) by {
        assert(at_or_behind(tokens[i].info, line, column));
    }
}

/// The tokens that the lexer gives have valid spans, each begins before the
/// next, and none begins before the cursor.
pub proof fn lemma_scan_spans(s: Seq<char>, i: int, line: nat, column: nat)
    requires
        0 <= i <= s.len() <= usize::MAX,
        1 <= line <= i + 1,
        1 <= column <= i + 1,
    ensures
        tokens_valid(scan(s, i, line, column)),
        ascending(scan(s, i, line, column)),
        all_behind(scan(s, i, line, column), line, column),
    decreases s.len() - i,
{
    if i < s.len() {
        let c = s[i];
        if c == ' ' || c == '\t' {
            lemma_scan_spans(s, i + 1, line, column + 1);
            lemma_behind_earlier(scan(s, i + 1, line, column + 1), line, column + 1, line, column);
        } else if c == '\n' {
            lemma_scan_spans(s, i + 1, line + 1, 1);
            lemma_behind_earlier(scan(s, i + 1, line + 1, 1), line + 1, 1, line, column);
        } else if single_payload(c) is Some {
            lemma_scan_spans(s, i + 1, line, column + 1);
            let t = scan(s, i, line, column)[0];
            lemma_prepend_ascends(t, scan(s, i + 1, line, column + 1), line, column, 1);
        } else if paired_payload(c, true) is Some {
            if i + 1 < s.len() && s[i + 1] == '=' {
                lemma_scan_spans(s, i + 2, line, column + 2);
                let t = scan(s, i, line, column)[0];
                lemma_prepend_ascends(t, scan(s, i + 2, line, column + 2), line, column, 2);
            } else {
                lemma_scan_spans(s, i + 1, line, column + 1);
                let t = scan(s, i, line, column)[0];
                lemma_prepend_ascends(t, scan(s, i + 1, line, column + 1), line, column, 1);
            }
        } else if is_digit(c) {
            let j = digits_end(s, i + 1);
            lemma_digits_end_bounds(s, i + 1);
            let len = (j - i) as nat;
            lemma_scan_spans(s, j, line, column + len);
            let rest = scan(s, j, line, column + len);
            if scan(s, i, line, column).len() == rest.len() + 1 {
                let t = scan(s, i, line, column)[0];
                lemma_prepend_ascends(t, rest, line, column, len);
            } else {
                lemma_behind_earlier(rest, line, column + len, line, column);
            }
        } else if is_word_start(c) {
            let j = word_end(s, i + 1);
            lemma_word_end_bounds(s, i + 1);
            let len = (j - i) as nat;
            lemma_scan_spans(s, j, line, column + len);
            let t = scan(s, i, line, column)[0];
            lemma_prepend_ascends(t, scan(s, j, line, column + len), line, column, len);
        } else {
            lemma_scan_spans(s, i + 1, line, column);
        }
    }
}

/// The span of a diagnostic.
pub open spec fn error_span(e: ErrorView) -> TokenInfo {
    TokenInfo { line: e.line, column_begin: e.column_begin, column_end: e.column_end }
}

/// Whether `p` holds of the span of every token of `tokens`.
pub open spec fn tokens_hold(p: spec_fn(TokenInfo) -> bool, tokens: Seq<TokenView>) -> bool {
    forall|i: int| 0 <= i < tokens.len() ==> p((#[trigger] tokens[i]).info)
}

/// Whether `p` holds of the span of every diagnostic of `errors`.
pub open spec fn errors_hold(p: spec_fn(TokenInfo) -> bool, errors: Seq<ErrorView>) -> bool {
    forall|i: int| 0 <= i < errors.len() ==> p(error_span(#[trigger] errors[i]))
}

/// Whether `p` holds of the spans of the tokens and of the diagnostics of
/// `ctx`.
pub open spec fn context_holds(p: spec_fn(TokenInfo) -> bool, ctx: ContextView) -> bool {
    tokens_hold(p, ctx.tokens) && errors_hold(p, ctx.errors)
}

// What follows holds of every property `p` of spans: the parser pins its
// diagnostics to spans of the tokens it was given, and to no other.

/// Recovery leaves tokens of whose spans `p` holds.
pub proof fn lemma_recovered_valid(p: spec_fn(TokenInfo) -> bool, tokens: Seq<TokenView>)
    requires
        tokens_hold(p, tokens),
    ensures
        tokens_hold(p, recovered(tokens)),
    decreases tokens.len(),
{
    if tokens.len() > 0 {
        assert forall|i: int| 0 <= i < tokens.skip(1).len() implies p(
            (#[trigger] tokens.skip(1)[i]).info,
        ) by {
            assert(tokens.skip(1)[i] == tokens[i + 1]);
        }
        if !is_stop(tokens[0]) {
            lemma_recovered_valid(p, tokens.skip(1));
        }
    }
}

/// Where `p` holds of the spans of tokens, it holds of those of a part of
/// them.
pub proof fn lemma_part_valid(p: spec_fn(TokenInfo) -> bool, tokens: Seq<TokenView>, from: int, to: int)
    requires
        tokens_hold(p, tokens),
        0 <= from <= to <= tokens.len(),
    ensures
        tokens_hold(p, tokens.subrange(from, to)),
{
    assert forall|i: int| 0 <= i < tokens.subrange(from, to).len() implies p(
        (#[trigger] tokens.subrange(from, to)[i]).info,
    ) by {
        assert(tokens.subrange(from, to)[i] == tokens[from + i]);
    }
}

/// A diagnostic about a span of which `p` holds keeps `p` holding of a
/// context, with recovery or without, whatever it says; and so does dropping
/// the first token.
pub proof fn lemma_fail_valid(p: spec_fn(TokenInfo) -> bool, ctx: ContextView, info: TokenInfo)
    requires
        context_holds(p, ctx),
    ensures
        p(info) ==> forall|m: Seq<char>| context_holds(p, #[trigger] ctx.fail(m, info)),
        p(info) ==> forall|m: Seq<char>| context_holds(p, #[trigger] ctx.record(m, info)),
        p(info) ==> forall|m: Seq<char>|
            context_holds(p, #[trigger] ctx.with_tokens(Seq::empty()).fail(m, info)),
        p(info) ==> forall|m: Seq<char>|
            context_holds(p, #[trigger] ctx.with_tokens(Seq::empty()).record(m, info)),
        ctx.tokens.len() > 0 ==> context_holds(p, ctx.advance()) && p(ctx.tokens[0].info),
{
    lemma_recovered_valid(p, ctx.tokens);
    lemma_recovered_valid(p, Seq::<TokenView>::empty());
    if ctx.tokens.len() > 0 {
        lemma_part_valid(p, ctx.tokens, 1, ctx.tokens.len() as int);
    }
}

/// Where `p` holds of the spans of two lists of diagnostics, it holds of
/// those of both together.
pub proof fn lemma_merge_valid(p: spec_fn(TokenInfo) -> bool, ctx: ContextView, errors: Seq<ErrorView>)
    requires
        context_holds(p, ctx),
        errors_hold(p, errors),
    ensures
        context_holds(p, ctx.merge(errors)),
{
    let all = ctx.errors + errors;
    assert forall|i: int| 0 <= i < all.len() implies p(error_span(#[trigger] all[i])) by {
        if i >= ctx.errors.len() {
            assert(all[i] == errors[i - ctx.errors.len()]);
        } else {
            assert(all[i] == ctx.errors[i]);
        }
    }
}

/// The head of a call keeps `p` holding of a context.
pub proof fn lemma_call_head_spans(p: spec_fn(TokenInfo) -> bool, ctx: ContextView, st: ShuntView)
    requires
        context_holds(p, ctx),
        st.pending.len() > 0,
        p(st.pending.last().info),
    ensures
        match call_head(ctx, st) {
            CallHead::Failed { ctx: c } => errors_hold(p, c.errors),
            CallHead::Found { begin, inner, after, .. } => p(begin) && tokens_hold(p, inner)
                && context_holds(p, after),
        },
{
    let invoke = st.pending.last().info;
    lemma_fail_valid(p, ctx, invoke);
    if ctx.tokens.len() > 0 {
        let name_token = ctx.tokens[0];
        let c1 = ctx.advance();
        lemma_fail_valid(p, c1, name_token.info);
        if c1.tokens.len() > 0 {
            let begin = c1.tokens[0];
            let c2 = c1.advance();
            lemma_fail_valid(p, c2, begin.info);
            let k = closing(c2.tokens, Symbol::LeftParen, Symbol::RightParen, 0, 1);
            lemma_closing_bounds(c2.tokens, Symbol::LeftParen, Symbol::RightParen, 0, 1);
            if k < c2.tokens.len() {
                lemma_part_valid(p, c2.tokens, 0, k);
                lemma_part_valid(p, c2.tokens, k + 1, c2.tokens.len() as int);
                let after = c2.with_tokens(c2.tokens.skip(k + 1));
                lemma_fail_valid(p, after, begin.info);
            }
        }
    }
}

/// A parse of an expression pins its diagnostics to spans of which `p`
/// holds.
pub proof fn lemma_expression_spans(p: spec_fn(TokenInfo) -> bool, ctx: ContextView)
    requires
        context_holds(p, ctx),
    ensures
        errors_hold(p, parse_expression_spec(ctx).ctx.errors),
    decreases ctx.tokens.len(), 1int,
{
    if ctx.tokens.len() > 0 {
        lemma_loop_spans(p, ctx, ShuntView::empty(), ctx.tokens[0].info);
    }
}

/// The rest of a parse of an expression pins its diagnostics to spans of
/// which `p` holds.
pub proof fn lemma_loop_spans(p: spec_fn(TokenInfo) -> bool, ctx: ContextView, st: ShuntView, anchor: TokenInfo)
    requires
        context_holds(p, ctx),
        p(anchor),
    ensures
        errors_hold(p, expression_loop(ctx, st, anchor).ctx.errors),
    decreases ctx.tokens.len(), 0int,
{
    lemma_fail_valid(p, ctx, anchor);
    if ctx.tokens.len() > 0 {
        let t = ctx.tokens[0];
        let rest = ctx.advance();
        let read = st.read(t);
        lemma_fail_valid(p, rest, anchor);
        lemma_fail_valid(p, rest, t.info);
        match t.payload {
            Payload::IntegerLiteral(value) => {
                lemma_loop_spans(
    p,
                    rest,
                    read.operand(
                        ExprView::Literal {
                            tokens: read.pending,
                            literal: LiteralView::Integer(value),
                        },
                    ),
                    anchor,
                );
            },
            Payload::BooleanLiteral(value) => {
                lemma_loop_spans(
    p,
                    rest,
                    read.operand(
                        ExprView::Literal {
                            tokens: read.pending,
                            literal: LiteralView::Boolean(value),
                        },
                    ),
                    anchor,
                );
            },
            Payload::Arithmetic(_) | Payload::Comparison(_) | Payload::Boolean(_) => {
                let op = operator_of(t.payload)->0;
                match read.reduce_above(precedence(op)) {
                    Ok(reduced) => {
                        lemma_loop_spans(p, rest, reduced.push_operator(op), anchor);
                    },
                    Err(_) => {},
                }
            },
            Payload::Symbol(Symbol::LeftParen) => {
                let k = closing(rest.tokens, Symbol::LeftParen, Symbol::RightParen, 0, 1);
                if k < rest.tokens.len() {
                    lemma_closing_bounds(rest.tokens, Symbol::LeftParen, Symbol::RightParen, 0, 1);
                    lemma_part_valid(p, rest.tokens, 0, k);
                    lemma_part_valid(p, rest.tokens, k + 1, rest.tokens.len() as int);
                    let inner_ctx = rest.window(rest.tokens.take(k));
                    lemma_expression_spans(p, inner_ctx);
                    let inner = parse_expression_spec(inner_ctx);
                    let behind = rest.with_tokens(rest.tokens.skip(k + 1));
                    lemma_merge_valid(p, behind, inner.ctx.errors);
                    let after = behind.merge(inner.ctx.errors);
                    lemma_fail_valid(p, after, t.info);
                    match inner.result {
                        Some(e) => {
                            lemma_loop_spans(
    p,
                                after,
                                read.read_all(rest.tokens.take(k + 1)).group(e),
                                anchor,
                            );
                        },
                        None => {},
                    }
                }
            },
            Payload::Identifier(name) => {
                if name == "invoke"@ {
                    lemma_call_head_spans(p, rest, read);
                    match call_head(rest, read) {
                        CallHead::Found { name: callee, signature, begin, inner, after, tokens } => {
                            lemma_call_head_shorter(rest, read);
                            let window = after.window(inner);
                            lemma_arguments_spans(p, window, begin);
                            let args = parse_arguments_spec(window, begin);
                            lemma_merge_valid(p, after, args.errors);
                            let merged = after.merge(args.errors);
                            lemma_fail_valid(p, merged, args.anchor);
                            match args.result {
                                Some(passed) => {
                                    lemma_loop_spans(
    p,
                                        merged,
                                        read.operand(
                                            ExprView::FunctionCall {
                                                tokens,
                                                vtype: signature.return_type,
                                                name: callee,
                                                args: passed,
                                            },
                                        ),
                                        anchor,
                                    );
                                },
                                None => {},
                            }
                        },
                        _ => {},
                    }
                } else {
                    match (ctx.table.get_id(name), ctx.table.lookup(name)) {
                        (Some(id), Some(vtype)) => {
                            lemma_loop_spans(
    p,
                                rest,
                                read.operand(ExprView::Variable { tokens: read.pending, vtype, id }),
                                anchor,
                            );
                        },
                        _ => {},
                    }
                }
            },
            _ => {},
        }
    }
}

/// A parse of arguments pins its diagnostics, and its failure, to spans of
/// which `p` holds.
pub proof fn lemma_arguments_spans(p: spec_fn(TokenInfo) -> bool, ctx: ContextView, fallback: TokenInfo)
    requires
        context_holds(p, ctx),
        p(fallback),
    ensures
        errors_hold(p, parse_arguments_spec(ctx, fallback).errors),
        p(parse_arguments_spec(ctx, fallback).anchor),
    decreases ctx.tokens.len(), 2int,
{
    if ctx.tokens.len() > 0 {
        lemma_comma_at_bounds(ctx.tokens, 0, 0);
        let k = comma_at(ctx.tokens, 0, 0);
        let window = first_argument(ctx.tokens);
        lemma_part_valid(p, ctx.tokens, 0, k);
        lemma_expression_spans(p, ctx.window(window));
        let first = parse_expression_spec(ctx.window(window));
        lemma_merge_valid(p, ctx, first.ctx.errors);
        let errors = ctx.errors + first.ctx.errors;
        match first.result {
            Some(e) => {
                if k < ctx.tokens.len() {
                    lemma_part_valid(p, ctx.tokens, k + 1, ctx.tokens.len() as int);
                }
                let later_ctx = ctx.with_tokens(later_arguments(ctx.tokens)).with_errors(errors);
                lemma_arguments_spans(p, later_ctx, fallback);
            },
            None => {},
        }
    }
}

/// Reading the expression of a statement keeps `p` holding of a context.
pub proof fn lemma_window_spans(p: spec_fn(TokenInfo) -> bool, ctx: ContextView)
    requires
        context_holds(p, ctx),
    ensures
        context_holds(p, expression_window(ctx).ctx),
{
    lemma_symbol_at_bounds(ctx.tokens, Symbol::Semicolon, 0);
    let k = symbol_at(ctx.tokens, Symbol::Semicolon, 0);
    lemma_part_valid(p, ctx.tokens, 0, k);
    let inner = ctx.window(ctx.tokens.take(k));
    lemma_expression_spans(p, inner);
    let behind = ctx.with_tokens(
        if k < ctx.tokens.len() {
            ctx.tokens.skip(k + 1)
        } else {
            Seq::empty()
        },
    );
    if k < ctx.tokens.len() {
        lemma_part_valid(p, ctx.tokens, k + 1, ctx.tokens.len() as int);
    }
    lemma_merge_valid(p, behind, parse_expression_spec(inner).ctx.errors);
}

/// The statements that a keyword names keep `p` holding of a context.
pub proof fn lemma_keyword_spans(p: spec_fn(TokenInfo) -> bool, ctx: ContextView, keyword: TokenView, word: Seq<char>)
    requires
        context_holds(p, ctx),
        p(keyword.info),
    ensures
        context_holds(p, parse_return_spec(ctx, keyword).ctx),
        context_holds(p, parse_plain_spec(ctx, keyword, word).ctx),
        context_holds(p, parse_let_spec(ctx, keyword).ctx),
        context_holds(p, parse_set_spec(ctx, keyword).ctx),
{
    lemma_fail_valid(p, ctx, keyword.info);
    lemma_window_spans(p, ctx);
    let w = expression_window(ctx);
    lemma_fail_valid(p, w.ctx, keyword.info);
    assert(context_holds(p, parse_return_spec(ctx, keyword).ctx));
    assert(context_holds(p, parse_plain_spec(ctx, keyword, word).ctx));
    if ctx.tokens.len() >= 1 {
        let name_token = ctx.tokens[0];
        let c1 = ctx.advance();
        lemma_fail_valid(p, c1, name_token.info);
        if c1.tokens.len() >= 1 {
            let second = c1.tokens[0];
            let c2 = c1.advance();
            lemma_fail_valid(p, c2, second.info);
            lemma_window_spans(p, c2);
            lemma_fail_valid(p, expression_window(c2).ctx, keyword.info);
            if c2.tokens.len() >= 1 {
                let third = c2.tokens[0];
                let c3 = c2.advance();
                lemma_fail_valid(p, c3, third.info);
                lemma_window_spans(p, c3);
                lemma_fail_valid(p, expression_window(c3).ctx, keyword.info);
                lemma_fail_valid(p, expression_window(c3).ctx, name_token.info);
            }
        }
    }
    assert(context_holds(p, parse_set_spec(ctx, keyword).ctx));
    assert(context_holds(p, parse_let_spec(ctx, keyword).ctx));
}

/// A parse of parameters keeps `p` holding of a context.
pub proof fn lemma_parameters_spans(p: spec_fn(TokenInfo) -> bool, 
    ctx: ContextView,
    window: Seq<TokenView>,
    read: Seq<TokenView>,
    parameters: Seq<ParameterView>,
)
    requires
        context_holds(p, ctx),
        tokens_hold(p, window),
    ensures
        context_holds(p, parse_parameters_spec(ctx, window, read, parameters).ctx),
    decreases window.len(),
{
    if window.len() >= 1 {
        lemma_fail_valid(p, ctx, window[0].info);
    }
    if window.len() >= 2 {
        lemma_fail_valid(p, ctx, window[1].info);
        if window.len() >= 3 {
            lemma_fail_valid(p, ctx, window[2].info);
        }
        match (window[0].payload, window[1].payload) {
            (Payload::Identifier(name), Payload::Type(vtype)) => {
                if parameter_separator(window) is None && ctx.table.can_define() {
                    let n: int = if window.len() == 2 {
                        2
                    } else {
                        3
                    };
                    lemma_part_valid(p, window, n, window.len() as int);
                    lemma_parameters_spans(
    p,
                        ctx.with_table(ctx.table.define(name, vtype)),
                        window.skip(n),
                        if window.len() == 2 {
                            read.push(window[1])
                        } else {
                            read.push(window[1]).push(window[2])
                        },
                        parameters.push(ParameterView { id: ctx.table.next_id, vtype }),
                    );
                }
            },
            _ => {},
        }
    }
}

/// Whether `p` holds of what the head of a function statement leaves
/// behind.
pub open spec fn header_holds(p: spec_fn(TokenInfo) -> bool, header: Header) -> bool {
    match header {
        Header::Failed { ctx: c } => context_holds(p, c),
        Header::Declared { ctx: c, .. } => context_holds(p, c),
        Header::Opened { ctx: c, brace, .. } => context_holds(p, c) && p(brace.info),
    }
}

/// The rest of a function's head keeps `p` holding of a context.
pub proof fn lemma_signature_spans(p: spec_fn(TokenInfo) -> bool, 
    ctx: ContextView,
    read: Seq<TokenView>,
    name_token: TokenView,
    name: Seq<char>,
)
    requires
        context_holds(p, ctx),
        p(name_token.info),
    ensures
        header_holds(p, function_signature(ctx, read, name_token, name)),
{
    lemma_symbol_at_bounds(ctx.tokens, Symbol::RightParen, 0);
    let k = symbol_at(ctx.tokens, Symbol::RightParen, 0);
    let closed = k < ctx.tokens.len();
    let behind = ctx.with_tokens(
        if closed {
            ctx.tokens.skip(k + 1)
        } else {
            Seq::empty()
        },
    ).with_table(ctx.table.push_scope());
    let read_list = read + (if closed {
        ctx.tokens.take(k + 1)
    } else {
        ctx.tokens
    });
    lemma_part_valid(p, ctx.tokens, 0, k);
    if closed {
        lemma_part_valid(p, ctx.tokens, k + 1, ctx.tokens.len() as int);
    }
    lemma_parameters_spans(p, behind, ctx.tokens.take(k), read_list, Seq::empty());
    let list = parse_parameters_spec(behind, ctx.tokens.take(k), read_list, Seq::empty());
    lemma_fail_valid(p, list.ctx, name_token.info);
    if list.ok && list.ctx.tokens.len() >= 1 {
        let type_token = list.ctx.tokens[0];
        let c1 = list.ctx.advance();
        lemma_fail_valid(p, c1, type_token.info);
        lemma_fail_valid(p, c1, name_token.info);
        if c1.tokens.len() >= 1 {
            let last = c1.tokens[0];
            let c2 = c1.advance();
            lemma_fail_valid(p, c2, last.info);
        }
    }
}

/// The head of a function statement keeps `p` holding of a context.
pub proof fn lemma_header_spans(p: spec_fn(TokenInfo) -> bool, ctx: ContextView, keyword: TokenView)
    requires
        context_holds(p, ctx),
        p(keyword.info),
    ensures
        header_holds(p, function_header(ctx, keyword)),
{
    lemma_fail_valid(p, ctx, keyword.info);
    if ctx.tokens.len() >= 1 {
        let name_token = ctx.tokens[0];
        let c1 = ctx.advance();
        lemma_fail_valid(p, c1, name_token.info);
        if c1.tokens.len() >= 1 {
            let open = c1.tokens[0];
            let c2 = c1.advance();
            lemma_fail_valid(p, c2, open.info);
            match (name_token.payload, open.payload) {
                (Payload::Identifier(name), Payload::Symbol(Symbol::LeftParen)) => {
                    lemma_signature_spans(p, c2, seq![keyword, name_token, open], name_token, name);
                },
                _ => {},
            }
        }
    }
}

/// A statement keeps `p` holding of its context.
pub proof fn lemma_statement_spans(p: spec_fn(TokenInfo) -> bool, ctx: ContextView, manage_scope: bool)
    requires
        context_holds(p, ctx),
    ensures
        context_holds(p, parse_statement_spec(ctx, manage_scope).ctx),
    decreases ctx.tokens.len(), 0int,
{
    if ctx.tokens.len() > 0 {
        let t = ctx.tokens[0];
        let rest = ctx.advance();
        lemma_fail_valid(p, ctx, t.info);
        lemma_fail_valid(p, rest, t.info);
        match t.payload {
            Payload::Symbol(Symbol::LeftBrace) => {
                lemma_compound_spans(p, rest, t, manage_scope);
            },
            Payload::Identifier(word) => {
                if word == "function"@ {
                    lemma_header_spans(p, rest, t);
                    lemma_header_tokens(rest, t);
                    match function_header(rest, t) {
                        Header::Opened { ctx: behind, brace, .. } => {
                            lemma_compound_spans(p, behind, brace, false);
                        },
                        _ => {},
                    }
                } else {
                    lemma_keyword_spans(p, rest, t, word);
                }
            },
            _ => {},
        }
    }
}

/// A compound statement keeps `p` holding of its context.
pub proof fn lemma_compound_spans(p: spec_fn(TokenInfo) -> bool, ctx: ContextView, brace: TokenView, manage_scope: bool)
    requires
        context_holds(p, ctx),
        p(brace.info),
    ensures
        context_holds(p, parse_compound_spec(ctx, brace, manage_scope).ctx),
    decreases ctx.tokens.len(), 2int,
{
    lemma_fail_valid(p, ctx, brace.info);
    let k = closing(ctx.tokens, Symbol::LeftBrace, Symbol::RightBrace, 0, 1);
    if k < ctx.tokens.len() {
        lemma_closing_bounds(ctx.tokens, Symbol::LeftBrace, Symbol::RightBrace, 0, 1);
        lemma_part_valid(p, ctx.tokens, 0, k);
        lemma_part_valid(p, ctx.tokens, k + 1, ctx.tokens.len() as int);
        let inner = ctx.window(ctx.tokens.take(k)).with_table(
            if manage_scope {
                ctx.table.push_scope()
            } else {
                ctx.table
            },
        );
        lemma_block_spans(p, inner, Seq::empty());
        let block = parse_block(inner, Seq::empty());
        lemma_merge_valid(p, ctx.with_tokens(ctx.tokens.skip(k + 1)), block.ctx.errors);
    }
}

/// A run of statements keeps `p` holding of its context.
pub proof fn lemma_block_spans(p: spec_fn(TokenInfo) -> bool, ctx: ContextView, done: Seq<StmtView>)
    requires
        context_holds(p, ctx),
    ensures
        context_holds(p, parse_block(ctx, done).ctx),
    decreases ctx.tokens.len(), 1int,
{
    if ctx.tokens.len() > 0 {
        lemma_statement_spans(p, ctx, true);
        let one = parse_statement_spec(ctx, true);
        let added = match one.result {
            Some(s) => done.push(s),
            None => done,
        };
        if one.ctx.tokens.len() < ctx.tokens.len() {
            lemma_block_spans(p, one.ctx, added);
        }
    }
}

} // verus!
