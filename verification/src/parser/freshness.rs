//! Ids are fresh: each parameter and each declaration gets an id greater than
//! all that were minted before it.

use vstd::prelude::*;
use crate::ast::properties::ids_within;
use crate::ast::properties::increasing;
use crate::ast::properties::lemma_increasing_joined;
use crate::ast::properties::minted_ids;
use crate::ast::properties::minted_ids_all;
use crate::ast::properties::parameter_id_list;
use crate::ast::statement::StmtView;
use crate::data::syms::Symbol;
use crate::data::vtype::ParameterView;
use crate::parser::grammar::ContextView;
use crate::parser::grammar::Header;
use crate::parser::grammar::StmtOutcome;
use crate::parser::grammar::closing;
use crate::parser::grammar::expression_window;
use crate::parser::grammar::function_header;
use crate::parser::grammar::function_signature;
use crate::parser::grammar::lemma_closing_bounds;
use crate::parser::grammar::parameter_separator;
use crate::parser::grammar::parse_block;
use crate::parser::grammar::parse_compound_spec;
use crate::parser::grammar::parse_expression_spec;
use crate::parser::grammar::parse_function_spec;
use crate::parser::grammar::parse_let_spec;
use crate::parser::grammar::parse_parameters_spec;
use crate::parser::grammar::parse_plain_spec;
use crate::parser::grammar::parse_return_spec;
use crate::parser::grammar::parse_set_spec;
use crate::parser::grammar::parse_statement_spec;
use crate::parser::grammar::symbol_at;
use crate::parser::laws::lemma_header_tokens;
use crate::parser::resolution::lemma_expression_resolved;
use crate::parser::token::Payload;
use crate::parser::token::TokenView;

verus! {

/// Whether the ids that `o` carries were minted by the parse that began in
/// `before`: they lie between the next id before and the next id after, and
/// each is less than the next.
pub open spec fn freshly_minted(before: ContextView, o: StmtOutcome) -> bool {
    &&& before.table.next_id <= o.ctx.table.next_id
    &&& o.result matches Some(s) ==> increasing(minted_ids(s)) && ids_within(
        minted_ids(s),
        before.table.next_id as int,
        o.ctx.table.next_id as int,
    )
}

/// Reading the expression of a statement mints no id.
pub proof fn lemma_window_mints(ctx: ContextView)
    ensures
        expression_window(ctx).ctx.table == ctx.table,
{
    let k = symbol_at(ctx.tokens, Symbol::Semicolon, 0);
    lemma_expression_resolved(ctx.window(ctx.tokens.take(k)));
}

/// The statements that a keyword names mint at most the id that they declare.
pub proof fn lemma_keyword_mints(ctx: ContextView, keyword: TokenView, word: Seq<char>)
    ensures
        freshly_minted(ctx, parse_return_spec(ctx, keyword)),
        freshly_minted(ctx, parse_plain_spec(ctx, keyword, word)),
        freshly_minted(ctx, parse_let_spec(ctx, keyword)),
        freshly_minted(ctx, parse_set_spec(ctx, keyword)),
{
    lemma_window_mints(ctx);
    if ctx.tokens.len() >= 1 {
        let c1 = ctx.advance();
        if c1.tokens.len() >= 1 {
            let c2 = c1.advance();
            lemma_window_mints(c2);
            if c2.tokens.len() >= 1 {
                lemma_window_mints(c2.advance());
            }
        }
    }
}

/// A parse of parameters gives each an id greater than those before it.
pub proof fn lemma_parameters_mint(
    ctx: ContextView,
    window: Seq<TokenView>,
    read: Seq<TokenView>,
    parameters: Seq<ParameterView>,
    low: int,
)
    requires
        low <= ctx.table.next_id,
        increasing(parameter_id_list(parameters)),
        ids_within(parameter_id_list(parameters), low, ctx.table.next_id as int),
    ensures
        ({
            let o = parse_parameters_spec(ctx, window, read, parameters);
            &&& ctx.table.next_id <= o.ctx.table.next_id
            &&& o.ok ==> increasing(parameter_id_list(o.parameters)) && ids_within(
                parameter_id_list(o.parameters),
                low,
                o.ctx.table.next_id as int,
            )
        }),
    decreases window.len(),
{
    if window.len() >= 2 {
        match (window[0].payload, window[1].payload) {
            (Payload::Identifier(name), Payload::Type(vtype)) => {
                if parameter_separator(window) is None && ctx.table.can_define() {
                    let id = ctx.table.next_id;
                    let bound = parameters.push(ParameterView { id, vtype });
                    assert(parameter_id_list(bound) =~= parameter_id_list(parameters) + seq![id]);
                    lemma_increasing_joined(
                        parameter_id_list(parameters),
                        seq![id],
                        low,
                        id as int,
                        id + 1,
                    );
                    lemma_parameters_mint(
                        ctx.with_table(ctx.table.define(name, vtype)),
                        window.skip(
                            if window.len() == 2 {
                                2
                            } else {
                                3
                            },
                        ),
                        if window.len() == 2 {
                            read.push(window[1])
                        } else {
                            read.push(window[1]).push(window[2])
                        },
                        bound,
                        low,
                    );
                }
            },
            _ => {},
        }
    }
}

/// Whether the ids of the parameters that `header` carries were minted by
/// the parse that began in `before`.
pub open spec fn header_minted(before: ContextView, header: Header) -> bool {
    match header {
        Header::Failed { ctx: c } => before.table.next_id <= c.table.next_id,
        Header::Declared { ctx: c, signature, .. } => {
            &&& before.table.next_id <= c.table.next_id
            &&& increasing(parameter_id_list(signature.parameters))
            &&& ids_within(
                parameter_id_list(signature.parameters),
                before.table.next_id as int,
                c.table.next_id as int,
            )
        },
        Header::Opened { ctx: c, signature, .. } => {
            &&& before.table.next_id <= c.table.next_id
            &&& increasing(parameter_id_list(signature.parameters))
            &&& ids_within(
                parameter_id_list(signature.parameters),
                before.table.next_id as int,
                c.table.next_id as int,
            )
        },
    }
}

/// The rest of a function's head gives each parameter a fresh id.
pub proof fn lemma_signature_mints(
    ctx: ContextView,
    read: Seq<TokenView>,
    name_token: TokenView,
    name: Seq<char>,
)
    ensures
        header_minted(ctx, function_signature(ctx, read, name_token, name)),
{
    let k = symbol_at(ctx.tokens, Symbol::RightParen, 0);
    let closed = k < ctx.tokens.len();
    let behind = ctx.with_tokens(
        if closed {
            ctx.tokens.skip(k + 1)
        } else {
            Seq::empty()
        },
    ).with_table(ctx.table.push_scope());
    let read_list = read + (if closed {
        ctx.tokens.take(k + 1)
    } else {
        ctx.tokens
    });
    lemma_parameters_mint(
        behind,
        ctx.tokens.take(k),
        read_list,
        Seq::empty(),
        ctx.table.next_id as int,
    );
}

/// The head of a function statement gives each parameter a fresh id.
pub proof fn lemma_header_mints(ctx: ContextView, keyword: TokenView)
    ensures
        header_minted(ctx, function_header(ctx, keyword)),
{
    if ctx.tokens.len() >= 2 {
        let c1 = ctx.advance();
        let c2 = c1.advance();
        match (ctx.tokens[0].payload, c1.tokens[0].payload) {
            (Payload::Identifier(name), Payload::Symbol(Symbol::LeftParen)) => {
                lemma_signature_mints(
                    c2,
                    seq![keyword, ctx.tokens[0], c1.tokens[0]],
                    ctx.tokens[0],
                    name,
                );
            },
            _ => {},
        }
    }
}

/// Every statement gives its parameters and declarations fresh ids.
pub proof fn lemma_statement_mints(ctx: ContextView, manage_scope: bool)
    ensures
        freshly_minted(ctx, parse_statement_spec(ctx, manage_scope)),
    decreases ctx.tokens.len(), 0int,
{
    if ctx.tokens.len() > 0 {
        let t = ctx.tokens[0];
        let rest = ctx.advance();
        match t.payload {
            Payload::Symbol(Symbol::LeftBrace) => {
                lemma_compound_mints(rest, t, manage_scope);
            },
            Payload::Identifier(word) => {
                if word == "function"@ {
                    lemma_function_mints(rest, t);
                } else {
                    lemma_keyword_mints(rest, t, word);
                }
            },
            _ => {},
        }
    }
}

/// Every function statement gives its parameters and declarations fresh ids.
pub proof fn lemma_function_mints(ctx: ContextView, keyword: TokenView)
    ensures
        freshly_minted(ctx, parse_function_spec(ctx, keyword)),
    decreases ctx.tokens.len(), 3int,
{
    lemma_header_mints(ctx, keyword);
    lemma_header_tokens(ctx, keyword);
    match function_header(ctx, keyword) {
        Header::Opened { ctx: behind, brace, tokens, signature } => {
            lemma_compound_mints(behind, brace, false);
            let body = parse_compound_spec(behind, brace, false);
            match body.result {
                Some(StmtView::Compound { tokens: body_tokens, statements }) => {
                    lemma_increasing_joined(
                        parameter_id_list(signature.parameters),
                        minted_ids_all(statements),
                        ctx.table.next_id as int,
                        behind.table.next_id as int,
                        body.ctx.table.next_id as int,
                    );
                },
                _ => {},
            }
        },
        _ => {},
    }
}

/// Every compound statement gives its declarations fresh ids.
pub proof fn lemma_compound_mints(ctx: ContextView, brace: TokenView, manage_scope: bool)
    ensures
        freshly_minted(ctx, parse_compound_spec(ctx, brace, manage_scope)),
    decreases ctx.tokens.len(), 2int,
{
    let k = closing(ctx.tokens, Symbol::LeftBrace, Symbol::RightBrace, 0, 1);
    if k < ctx.tokens.len() {
        lemma_closing_bounds(ctx.tokens, Symbol::LeftBrace, Symbol::RightBrace, 0, 1);
        let inner = ctx.window(ctx.tokens.take(k)).with_table(
            if manage_scope {
                ctx.table.push_scope()
            } else {
                ctx.table
            },
        );
        lemma_block_mints(inner, Seq::empty(), ctx.table.next_id as int);
    }
}

/// Every run of statements gives its parameters and declarations fresh ids.
pub proof fn lemma_block_mints(ctx: ContextView, done: Seq<StmtView>, low: int)
    requires
        low <= ctx.table.next_id,
        increasing(minted_ids_all(done)),
        ids_within(minted_ids_all(done), low, ctx.table.next_id as int),
    ensures
        ({
            let o = parse_block(ctx, done);
            &&& ctx.table.next_id <= o.ctx.table.next_id
            &&& increasing(minted_ids_all(o.statements))
            &&& ids_within(minted_ids_all(o.statements), low, o.ctx.table.next_id as int)
        }),
    decreases ctx.tokens.len(), 1int,
{
    if ctx.tokens.len() > 0 {
        lemma_statement_mints(ctx, true);
        let one = parse_statement_spec(ctx, true);
        let added = match one.result {
            Some(s) => done.push(s),
            None => done,
        };
        match one.result {
            Some(s) => {
                assert(added.drop_last() =~= done);
                assert(added.last() == s);
                lemma_increasing_joined(
                    minted_ids_all(done),
                    minted_ids(s),
                    low,
                    ctx.table.next_id as int,
                    one.ctx.table.next_id as int,
                );
            },
            None => {},
        }
        if one.ctx.tokens.len() < ctx.tokens.len() {
            lemma_block_mints(one.ctx, added, low);
        }
    }
}

} // verus!
