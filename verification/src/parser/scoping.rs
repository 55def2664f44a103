//! Statements are sound: what the statement parser puts into the tree agrees
//! with the symbol table, which it keeps in order.

use vstd::prelude::*;
use crate::ast::expression::ExprView;
use crate::ast::properties::all_calls_resolved;
use crate::ast::properties::calls_name_earlier_functions;
use crate::ast::properties::declared_after;
use crate::ast::properties::declared_after_all;
use crate::ast::properties::distinct_names;
use crate::ast::properties::extends;
use crate::ast::properties::ids_bound;
use crate::ast::properties::lemma_declared_grows_all;
use crate::ast::properties::lemma_statement_stays_resolved;
use crate::ast::properties::own_signature;
use crate::ast::properties::parameter_ids;
use crate::ast::properties::scoped;
use crate::ast::properties::scoped_all;
use crate::ast::properties::signatures_of;
use crate::ast::properties::statement_calls_resolved;
use crate::ast::statement::StmtView;
use crate::data::syms::Symbol;
use crate::data::vtype::ParameterView;
use crate::data::vtype::VType;
use crate::parser::grammar::ContextView;
use crate::parser::grammar::Header;
use crate::parser::grammar::StmtOutcome;
use crate::parser::grammar::closing;
use crate::parser::grammar::expression_window;
use crate::parser::grammar::function_header;
use crate::parser::grammar::function_signature;
use crate::parser::grammar::lemma_closing_bounds;
use crate::parser::grammar::parameter_separator;
use crate::parser::grammar::parse_block;
use crate::parser::grammar::parse_compound_spec;
use crate::parser::grammar::parse_expression_spec;
use crate::parser::grammar::parse_let_spec;
use crate::parser::grammar::parse_parameters_spec;
use crate::parser::grammar::parse_plain_spec;
use crate::parser::grammar::parse_return_spec;
use crate::parser::grammar::parse_set_spec;
use crate::parser::grammar::parse_statement_spec;
use crate::parser::grammar::symbol_at;
use crate::parser::laws::lemma_header_tokens;
use crate::parser::resolution::bound_ids;
use crate::parser::resolution::lemma_binding_id_bound;
use crate::parser::resolution::lemma_expression_resolved;
use crate::parser::resolution::lemma_find_function;
use crate::parser::resolution::resolved_in;
use crate::parser::resolution::visible_ids;
use crate::parser::symbols_table::TableView;
use crate::parser::token::Payload;
use crate::parser::token::TokenView;

verus! {

/// What a statement parser may rely on: a scope is open, and two where the
/// statement is a function's body; no two signatures have the same name; and
/// the ids that the innermost scope binds are among `declared`.
pub open spec fn statement_ready(ctx: ContextView, declared: Set<u16>, manage_scope: bool) -> bool {
    &&& ctx.table.depth() >= 1
    &&& (manage_scope || ctx.table.depth() >= 2)
    &&& distinct_names(ctx.table.functions)
    &&& visible_ids(ctx.table).subset_of(declared)
}

/// Whether `after` has the scopes of `before`, but for what the innermost
/// binds.
pub open spec fn outer_scopes_kept(before: TableView, after: TableView) -> bool {
    &&& after.scopes.len() == before.scopes.len()
    &&& after.scopes.skip(1) == before.scopes.skip(1)
}

/// What a statement parser leaves behind, from the context `before` and with
/// the ids `declared` before the statement.
///
/// The scopes stay but for what the innermost binds, and that too where the
/// statement is no declaration. A signature is registered with the function
/// statement that carries it, and with none else; no two have the same name.
/// The statement's calls are resolved and its variables declared, and the ids
/// visible after it were declared before it or by it.
pub open spec fn statement_sound(
    before: ContextView,
    o: StmtOutcome,
    declared: Set<u16>,
    manage_scope: bool,
) -> bool {
    &&& o.ctx.source == before.source
    &&& outer_scopes_kept(before.table, o.ctx.table)
    &&& o.ctx.table.functions == before.table.functions + own_signature(o.result)
    &&& (before.table.depth() >= 2 ==> own_signature(o.result).len() == 0)
    &&& distinct_names(o.ctx.table.functions)
    &&& (manage_scope ==> o.result matches Some(StmtView::Declare { .. }) || o.ctx.table.scopes
        == before.table.scopes)
    &&& (before.table.depth() == 1 ==> !(o.result matches Some(StmtView::Declare { .. })))
    &&& match o.result {
        Some(s) => {
            &&& statement_calls_resolved(s, o.ctx.table.functions)
            &&& scoped(s, declared)
            &&& visible_ids(o.ctx.table).subset_of(declared_after(s, declared))
        },
        None => visible_ids(o.ctx.table).subset_of(declared),
    }
}

/// Variables that are bound stay so among more ids.
pub proof fn lemma_ids_stay_bound(e: ExprView, smaller: Set<u16>, larger: Set<u16>)
    requires
        ids_bound(e, smaller),
        smaller.subset_of(larger),
    ensures
        ids_bound(e, larger),
    decreases e,
{
    match e {
        ExprView::FunctionCall { args, .. } => {
            assert forall|i: int| 0 <= i < args.len() implies ids_bound(#[trigger] args[i], larger) by {
                lemma_ids_stay_bound(args[i], smaller, larger);
            }
        },
        ExprView::Arithmetic { left, right, .. } => {
            lemma_ids_stay_bound(*left, smaller, larger);
            lemma_ids_stay_bound(*right, smaller, larger);
        },
        ExprView::Comparison { left, right, .. } => {
            lemma_ids_stay_bound(*left, smaller, larger);
            lemma_ids_stay_bound(*right, smaller, larger);
        },
        ExprView::Boolean { left, right, .. } => {
            lemma_ids_stay_bound(*left, smaller, larger);
            lemma_ids_stay_bound(*right, smaller, larger);
        },
        _ => {},
    }
}

/// The expression of a statement is resolved in the symbol table of the
/// statement, which reading it leaves as it is.
pub proof fn lemma_window_resolved(ctx: ContextView, declared: Set<u16>)
    requires
        visible_ids(ctx.table).subset_of(declared),
    ensures
        expression_window(ctx).ctx.table == ctx.table,
        expression_window(ctx).ctx.source == ctx.source,
        expression_window(ctx).result matches Some(e) ==> resolved_in(e, ctx.table) && ids_bound(
            e,
            declared,
        ),
{
    let k = symbol_at(ctx.tokens, Symbol::Semicolon, 0);
    let inner = ctx.window(ctx.tokens.take(k));
    lemma_expression_resolved(inner);
    match parse_expression_spec(inner).result {
        Some(e) => {
            lemma_ids_stay_bound(e, visible_ids(ctx.table), declared);
        },
        None => {},
    }
}

/// Binding a name makes its id visible, and no other.
pub proof fn lemma_define_visible(table: TableView, name: Seq<char>, vtype: VType)
    ensures
        visible_ids(table.define(name, vtype)).subset_of(visible_ids(table).insert(table.next_id)),
        outer_scopes_kept(table, table.define(name, vtype)),
        table.define(name, vtype).functions == table.functions,
{
    let after = table.define(name, vtype);
    assert(after.scopes.skip(1) =~= table.scopes.skip(1));
    if table.scopes.len() > 0 {
        let old_bindings = table.scopes[0].bindings;
        let new_bindings = after.scopes[0].bindings;
        assert forall|id: u16| bound_ids(new_bindings).contains(id) implies visible_ids(
            table,
        ).insert(table.next_id).contains(id) by {
            let i = choose|i: int| 0 <= i < new_bindings.len() && (#[trigger] new_bindings[i]).id == id;
            if i < old_bindings.len() {
                assert(old_bindings[i].id == id);
            }
        }
    }
}

/// The statements that a keyword names are sound.
pub proof fn lemma_keyword_sound(
    ctx: ContextView,
    keyword: TokenView,
    word: Seq<char>,
    declared: Set<u16>,
    manage_scope: bool,
)
    requires
        statement_ready(ctx, declared, manage_scope),
    ensures
        statement_sound(ctx, parse_return_spec(ctx, keyword), declared, manage_scope),
        statement_sound(ctx, parse_plain_spec(ctx, keyword, word), declared, manage_scope),
        statement_sound(ctx, parse_let_spec(ctx, keyword), declared, manage_scope),
        statement_sound(ctx, parse_set_spec(ctx, keyword), declared, manage_scope),
{
    let functions = ctx.table.functions;
    assert(functions + Seq::empty() =~= functions);
    lemma_window_resolved(ctx, declared);
    assert(statement_sound(ctx, parse_return_spec(ctx, keyword), declared, manage_scope));
    assert(statement_sound(ctx, parse_plain_spec(ctx, keyword, word), declared, manage_scope));
    if ctx.tokens.len() >= 1 {
        let c1 = ctx.advance();
        if c1.tokens.len() >= 1 {
            let c2 = c1.advance();
            lemma_window_resolved(c2, declared);
            match ctx.tokens[0].payload {
                Payload::Identifier(name) => {
                    lemma_binding_id_bound(ctx.table.scopes[0].bindings, name);
                },
                _ => {},
            }
            if c2.tokens.len() >= 1 {
                let c3 = c2.advance();
                lemma_window_resolved(c3, declared);
                match (ctx.tokens[0].payload, c1.tokens[0].payload) {
                    (Payload::Identifier(name), Payload::Type(vtype)) => {
                        lemma_define_visible(ctx.table, name, vtype);
                    },
                    _ => {},
                }
            }
        }
    }
    assert(statement_sound(ctx, parse_set_spec(ctx, keyword), declared, manage_scope));
    assert(statement_sound(ctx, parse_let_spec(ctx, keyword), declared, manage_scope));
}

/// A parse of parameters binds their ids in the innermost scope and leaves
/// the rest of the symbol table as it is.
pub proof fn lemma_parameters_sound(
    ctx: ContextView,
    window: Seq<TokenView>,
    read: Seq<TokenView>,
    parameters: Seq<ParameterView>,
    declared: Set<u16>,
)
    requires
        visible_ids(ctx.table).subset_of(declared.union(parameter_ids(parameters))),
    ensures
        ({
            let o = parse_parameters_spec(ctx, window, read, parameters);
            &&& o.ctx.source == ctx.source
            &&& o.ctx.table.functions == ctx.table.functions
            &&& outer_scopes_kept(ctx.table, o.ctx.table)
            &&& o.ok ==> visible_ids(o.ctx.table).subset_of(
                declared.union(parameter_ids(o.parameters)),
            )
        }),
    decreases window.len(),
{
    if window.len() >= 2 {
        match (window[0].payload, window[1].payload) {
            (Payload::Identifier(name), Payload::Type(vtype)) => {
                if parameter_separator(window) is None && ctx.table.can_define() {
                    let bound = parameters.push(ParameterView { id: ctx.table.next_id, vtype });
                    lemma_define_visible(ctx.table, name, vtype);
                    assert(bound[bound.len() - 1].id == ctx.table.next_id);
                    assert forall|id: u16| parameter_ids(parameters).contains(id) implies parameter_ids(
                        bound,
                    ).contains(id) by {
                        let i = choose|i: int|
                            0 <= i < parameters.len() && (#[trigger] parameters[i]).id == id;
                        assert(bound[i].id == id);
                    }
                    lemma_parameters_sound(
                        ctx.with_table(ctx.table.define(name, vtype)),
                        window.skip(
                            if window.len() == 2 {
                                2
                            } else {
                                3
                            },
                        ),
                        if window.len() == 2 {
                            read.push(window[1])
                        } else {
                            read.push(window[1]).push(window[2])
                        },
                        bound,
                        declared,
                    );
                }
            },
            _ => {},
        }
    }
}

/// What the head of a function statement leaves behind: the scopes as they
/// were, or with the function's own on top where a body follows; and the
/// signature registered with a declaration or a body, and with nothing else.
pub open spec fn header_sound(ctx: ContextView, header: Header, declared: Set<u16>) -> bool {
    match header {
        Header::Failed { ctx: c } => {
            &&& c.source == ctx.source
            &&& c.table.functions == ctx.table.functions
            &&& c.table.scopes == ctx.table.scopes
        },
        Header::Declared { ctx: c, signature, .. } => {
            &&& ctx.table.depth() == 1
            &&& c.source == ctx.source
            &&& c.table.functions == ctx.table.functions.push(signature)
            &&& c.table.scopes == ctx.table.scopes
            &&& distinct_names(c.table.functions)
        },
        Header::Opened { ctx: c, signature, .. } => {
            &&& ctx.table.depth() == 1
            &&& c.source == ctx.source
            &&& c.table.functions == ctx.table.functions.push(signature)
            &&& c.table.scopes.len() == ctx.table.scopes.len() + 1
            &&& c.table.scopes.skip(1) == ctx.table.scopes
            &&& distinct_names(c.table.functions)
            &&& visible_ids(c.table).subset_of(declared.union(parameter_ids(signature.parameters)))
        },
    }
}

/// The rest of a function's head is sound.
pub proof fn lemma_signature_sound(
    ctx: ContextView,
    read: Seq<TokenView>,
    name_token: TokenView,
    name: Seq<char>,
    declared: Set<u16>,
)
    requires
        ctx.table.depth() == 1,
        distinct_names(ctx.table.functions),
        visible_ids(ctx.table).subset_of(declared),
    ensures
        header_sound(ctx, function_signature(ctx, read, name_token, name), declared),
{
    let k = symbol_at(ctx.tokens, Symbol::RightParen, 0);
    let closed = k < ctx.tokens.len();
    let behind = ctx.with_tokens(
        if closed {
            ctx.tokens.skip(k + 1)
        } else {
            Seq::empty()
        },
    ).with_table(ctx.table.push_scope());
    let read_list = read + (if closed {
        ctx.tokens.take(k + 1)
    } else {
        ctx.tokens
    });
    let list = parse_parameters_spec(behind, ctx.tokens.take(k), read_list, Seq::empty());
    assert(behind.table.scopes.skip(1) =~= ctx.table.scopes);
    assert(visible_ids(behind.table) =~= visible_ids(ctx.table));
    lemma_parameters_sound(behind, ctx.tokens.take(k), read_list, Seq::empty(), declared);
    assert(list.ctx.table.pop_scope().scopes =~= ctx.table.scopes);
    assert(list.ctx.table.scopes.skip(1) =~= ctx.table.scopes);
    lemma_find_function(ctx.table.functions, name);
    let functions = ctx.table.functions;
    match function_signature(ctx, read, name_token, name) {
        Header::Failed { ctx: c } => {
            assert(c.table.scopes =~= ctx.table.scopes);
        },
        Header::Declared { ctx: c, signature, .. } => {
            assert(c.table.scopes =~= ctx.table.scopes);
            assert(signature.name == name);
            assert(distinct_names(functions.push(signature)));
        },
        Header::Opened { ctx: c, signature, .. } => {
            assert(signature.name == name);
            assert(distinct_names(functions.push(signature)));
        },
    }
}

/// The head of a function statement is sound.
pub proof fn lemma_header_sound(ctx: ContextView, keyword: TokenView, declared: Set<u16>)
    requires
        ctx.table.depth() >= 1,
        distinct_names(ctx.table.functions),
        visible_ids(ctx.table).subset_of(declared),
    ensures
        header_sound(ctx, function_header(ctx, keyword), declared),
{
    if ctx.table.depth() == 1 && ctx.tokens.len() >= 2 {
        let c1 = ctx.advance();
        let c2 = c1.advance();
        match (ctx.tokens[0].payload, c1.tokens[0].payload) {
            (Payload::Identifier(name), Payload::Symbol(Symbol::LeftParen)) => {
                lemma_signature_sound(
                    c2,
                    seq![keyword, ctx.tokens[0], c1.tokens[0]],
                    ctx.tokens[0],
                    name,
                    declared,
                );
            },
            _ => {},
        }
    }
}

/// Every statement that is parsed where [`statement_ready`] holds is sound.
pub proof fn lemma_statement_sound(ctx: ContextView, manage_scope: bool, declared: Set<u16>)
    requires
        statement_ready(ctx, declared, manage_scope),
    ensures
        statement_sound(ctx, parse_statement_spec(ctx, manage_scope), declared, manage_scope),
    decreases ctx.tokens.len(), 0int,
{
    let functions = ctx.table.functions;
    assert(functions + Seq::empty() =~= functions);
    if ctx.tokens.len() > 0 {
        let t = ctx.tokens[0];
        let rest = ctx.advance();
        match t.payload {
            Payload::Symbol(Symbol::LeftBrace) => {
                lemma_compound_sound(rest, t, manage_scope, declared);
            },
            Payload::Identifier(word) => {
                if word == "function"@ {
                    lemma_header_sound(rest, t, declared);
                    lemma_header_tokens(rest, t);
                    match function_header(rest, t) {
                        Header::Declared { ctx: behind, signature, .. } => {
                            assert(functions + seq![signature] =~= functions.push(signature));
                        },
                        Header::Opened { ctx: behind, brace, tokens, signature } => {
                            let inside = declared.union(parameter_ids(signature.parameters));
                            lemma_compound_sound(behind, brace, false, inside);
                            let body = parse_compound_spec(behind, brace, false);
                            let extended = functions.push(signature);
                            assert(extended + Seq::empty() =~= extended);
                            assert(functions + seq![signature] =~= extended);
                            assert(extended.drop_last() =~= functions);
                            assert(body.ctx.table.pop_scope().scopes =~= ctx.table.scopes);
                            assert(body.ctx.table.retract_function().pop_scope().scopes
                                =~= ctx.table.scopes);
                        },
                        _ => {},
                    }
                } else {
                    lemma_keyword_sound(rest, t, word, declared, manage_scope);
                }
            },
            _ => {},
        }
    }
}

/// Every compound statement that is parsed where [`statement_ready`] holds
/// is sound, and registers no signature.
pub proof fn lemma_compound_sound(
    ctx: ContextView,
    brace: TokenView,
    manage_scope: bool,
    declared: Set<u16>,
)
    requires
        statement_ready(ctx, declared, manage_scope),
    ensures
        statement_sound(ctx, parse_compound_spec(ctx, brace, manage_scope), declared, manage_scope),
        parse_compound_spec(ctx, brace, manage_scope).ctx.table.functions == ctx.table.functions,
    decreases ctx.tokens.len(), 2int,
{
    let functions = ctx.table.functions;
    assert(functions + Seq::empty() =~= functions);
    let k = closing(ctx.tokens, Symbol::LeftBrace, Symbol::RightBrace, 0, 1);
    if k < ctx.tokens.len() {
        lemma_closing_bounds(ctx.tokens, Symbol::LeftBrace, Symbol::RightBrace, 0, 1);
        let inner = ctx.window(ctx.tokens.take(k)).with_table(
            if manage_scope {
                ctx.table.push_scope()
            } else {
                ctx.table
            },
        );
        if manage_scope {
            assert(inner.table.scopes.skip(1) =~= ctx.table.scopes);
            assert(visible_ids(inner.table) =~= visible_ids(ctx.table));
        }
        lemma_block_sound(inner, Seq::empty(), declared);
        let block = parse_block(inner, Seq::empty());
        lemma_declared_grows_all(block.statements, declared);
        if manage_scope {
            assert(block.ctx.table.pop_scope().scopes =~= ctx.table.scopes);
        }
    }
}

/// Every run of statements that is parsed inside a compound statement is
/// sound, statement by statement, and registers no signature.
pub proof fn lemma_block_sound(ctx: ContextView, done: Seq<StmtView>, declared: Set<u16>)
    requires
        ctx.table.depth() >= 2,
        distinct_names(ctx.table.functions),
        all_calls_resolved(done, ctx.table.functions),
        scoped_all(done, declared),
        visible_ids(ctx.table).subset_of(declared_after_all(done, declared)),
    ensures
        ({
            let o = parse_block(ctx, done);
            &&& o.ctx.source == ctx.source
            &&& o.ctx.table.functions == ctx.table.functions
            &&& outer_scopes_kept(ctx.table, o.ctx.table)
            &&& all_calls_resolved(o.statements, ctx.table.functions)
            &&& scoped_all(o.statements, declared)
            &&& visible_ids(o.ctx.table).subset_of(declared_after_all(o.statements, declared))
        }),
    decreases ctx.tokens.len(), 1int,
{
    if ctx.tokens.len() > 0 {
        let before = declared_after_all(done, declared);
        lemma_statement_sound(ctx, true, before);
        let one = parse_statement_spec(ctx, true);
        let functions = ctx.table.functions;
        assert(functions + Seq::empty() =~= functions);
        let added = match one.result {
            Some(s) => done.push(s),
            None => done,
        };
        match one.result {
            Some(s) => {
                assert(added.drop_last() =~= done);
                assert(added.last() == s);
            },
            None => {},
        }
        if one.ctx.tokens.len() < ctx.tokens.len() {
            lemma_block_sound(one.ctx, added, declared);
        }
    }
}

/// Every run of statements that is parsed at the top level is sound: the
/// signatures registered are those of its function statements, no two of
/// which have the same name; every call is resolved among them; and every
/// variable was declared in the statement that holds it.
pub proof fn lemma_root_sound(ctx: ContextView, done: Seq<StmtView>)
    requires
        ctx.table.depth() == 1,
        visible_ids(ctx.table).subset_of(Set::empty()),
        ctx.table.functions == signatures_of(done),
        distinct_names(ctx.table.functions),
        all_calls_resolved(done, ctx.table.functions),
        calls_name_earlier_functions(done),
        forall|i: int| 0 <= i < done.len() ==> scoped(#[trigger] done[i], Set::empty()),
    ensures
        ({
            let o = parse_block(ctx, done);
            &&& o.ctx.table.functions == signatures_of(o.statements)
            &&& distinct_names(o.ctx.table.functions)
            &&& all_calls_resolved(o.statements, o.ctx.table.functions)
            &&& calls_name_earlier_functions(o.statements)
            &&& forall|i: int|
                0 <= i < o.statements.len() ==> scoped(#[trigger] o.statements[i], Set::empty())
        }),
    decreases ctx.tokens.len(),
{
    if ctx.tokens.len() > 0 {
        lemma_statement_sound(ctx, true, Set::empty());
        let one = parse_statement_spec(ctx, true);
        let functions = ctx.table.functions;
        let added = match one.result {
            Some(s) => done.push(s),
            None => done,
        };
        assert(extends(one.ctx.table.functions, functions));
        assert forall|i: int| 0 <= i < added.len() implies statement_calls_resolved(
            #[trigger] added[i],
            one.ctx.table.functions,
        ) by {
            if i < done.len() {
                lemma_statement_stays_resolved(done[i], functions, one.ctx.table.functions);
            }
        }
        match one.result {
            Some(s) => {
                assert(added.drop_last() =~= done);
                assert(added.last() == s);
                assert forall|k: int| 0 <= k < added.len() implies statement_calls_resolved(
                    #[trigger] added[k],
                    signatures_of(added.take(k + 1)),
                ) by {
                    if k < done.len() {
                        assert(added.take(k + 1) =~= done.take(k + 1));
                        assert(added[k] == done[k]);
                    } else {
                        assert(added.take(k + 1) =~= added);
                    }
                }
            },
            None => {
                assert(functions + Seq::empty() =~= functions);
            },
        }
        if one.ctx.tokens.len() < ctx.tokens.len() {
            lemma_root_sound(one.ctx, added);
        }
    }
}

} // verus!
