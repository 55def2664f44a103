//! The parsing pipeline: lexer, symbol table, expression and statement parsers.

pub mod expression;
pub mod freshness;
pub mod grammar;
pub mod laws;
pub mod lexer;
pub mod precedence;
pub mod resolution;
pub mod scoping;
pub mod spans;
pub mod statement;
pub mod symbols_table;
pub mod token;

use vstd::prelude::*;
use vstd::string::StringExecFns;
use std::collections::VecDeque;
use crate::ast::properties::all_calls_resolved;
use crate::ast::properties::all_declares_typed;
use crate::ast::properties::calls_name_earlier_functions;
use crate::ast::properties::distinct_names;
use crate::ast::properties::increasing;
use crate::ast::properties::minted_ids_all;
use crate::ast::properties::scoped;
use crate::ast::properties::signatures_of;
use crate::ast::root::Root;
use crate::data::syms::Symbol;
use crate::data::text::chars_of;
use crate::data::text::text_of;
use crate::parser::grammar::ContextView;
use crate::parser::grammar::ErrorView;
use crate::parser::grammar::context_line;
use crate::parser::grammar::line_end;
use crate::parser::grammar::line_text;
use crate::parser::grammar::parse_block;
use crate::parser::grammar::parse_root_spec;
use crate::parser::grammar::recovered;
use crate::parser::grammar::root_context;
use crate::parser::laws::law_calls_are_resolved;
use crate::parser::laws::law_calls_name_earlier_functions;
use crate::parser::laws::law_declarations_have_a_type;
use crate::parser::laws::law_diagnostic_spans;
use crate::parser::laws::law_function_names_are_distinct;
use crate::parser::laws::law_ids_are_fresh;
use crate::parser::laws::law_variables_are_declared;
use crate::parser::laws::lemma_statement_progress;
use crate::parser::lexer::lex;
use crate::parser::spans::errors_valid;
use crate::parser::statement::parse_statement;
use crate::parser::symbols_table::SymbolsTable;
use crate::parser::token::Token;
use crate::parser::token::TokenInfo;
use crate::parser::token::tokens_view;

verus! {

/// A diagnostic: a message, the span it is about, and the source line of that
/// span.
pub struct ParserError {
    pub message: String,
    pub line: usize,
    pub column_begin: usize,
    pub column_end: usize,
    pub context_line: String,
}

impl View for ParserError {
    type V = ErrorView;

    open spec fn view(&self) -> ErrorView {
        ErrorView {
            message: self.message@,
            line: self.line,
            column_begin: self.column_begin,
            column_end: self.column_end,
            context_line: self.context_line@,
        }
    }
}

/// The views of a sequence of diagnostics, in order.
pub open spec fn errors_view(es: Seq<ParserError>) -> Seq<ErrorView> {
    Seq::new(es.len(), |i: int| es[i]@)
}

/// What a parser works on: the source text, the tokens not yet read, the
/// symbol table and the diagnostics recorded so far.
pub struct ParserContext<'a> {
    pub source: &'a str,
    pub tokens: VecDeque<Token>,
    pub symbols_table: SymbolsTable,
    pub errors: Vec<ParserError>,
}

impl<'a> View for ParserContext<'a> {
    type V = ContextView;

    open spec fn view(&self) -> ContextView {
        ContextView {
            source: self.source@,
            tokens: tokens_view(self.tokens@),
            table: self.symbols_table@,
            errors: errors_view(self.errors@),
        }
    }
}

/// The text of line `line` of `source`, counted from 1; empty where there is
/// no such line.
pub fn source_line(source: &str, line: usize) -> (r: String)
    ensures
        r@ == context_line(source@, line),
{
    if line == 0 {
        return String::new();
    }
    let chars = chars_of(source);
    let n = chars.len();
    let mut start: usize = 0;
    let mut k: usize = line - 1;
    loop
        invariant
            n == chars@.len(),
            chars@ == source@,
            start <= n,
            context_line(source@, line) == line_text(source@, start as int, k as nat),
        decreases n - start,
    {
        let mut end: usize = start;
        while end < n && chars[end] != '\n'
            invariant
                n == chars@.len(),
                chars@ == source@,
                start <= end <= n,
                line_end(source@, start as int) == line_end(source@, end as int),
            decreases n - end,
        {
            end += 1;
        }
        if k == 0 {
            return text_of(&chars, start, end);
        }
        if end >= n {
            return String::new();
        }
        start = end + 1;
        k -= 1;
    }
}

/// Adds to the diagnostics of `parser_context` the one that says `message`
/// about the span `info`.
pub fn record_error(parser_context: &mut ParserContext, message: &str, info: &TokenInfo)
    ensures
        final(parser_context)@ == old(parser_context)@.record(message@, *info),
{
    let error = ParserError {
        message: String::from_str(message),
        line: info.line,
        column_begin: info.column_begin,
        column_end: info.column_end,
        context_line: source_line(parser_context.source, info.line),
    };
    parser_context.errors.push(error);
    assert(parser_context@.errors =~= old(parser_context)@.record(message@, *info).errors);
}

/// A context of its own for the window `tokens`: the same source, a copy of
/// the symbol table, and no diagnostics yet.
pub fn sub_context<'a>(parser_context: &ParserContext<'a>, tokens: VecDeque<Token>) -> (r:
    ParserContext<'a>)
    ensures
        r@ == parser_context@.window(tokens_view(tokens@)),
{
    let r = ParserContext {
        source: parser_context.source,
        tokens,
        symbols_table: parser_context.symbols_table.clone(),
        errors: Vec::new(),
    };
    assert(r@.errors =~= Seq::<ErrorView>::empty());
    r
}

/// Moves the diagnostics of `from` behind those of `errors`.
pub fn merge_errors(errors: &mut Vec<ParserError>, from: &mut Vec<ParserError>)
    ensures
        errors_view(final(errors)@) == errors_view(old(errors)@) + errors_view(old(from)@),
{
    errors.append(from);
    assert(errors_view(errors@) =~= errors_view(old(errors)@) + errors_view(old(from)@));
}

/// Takes the first token off `tokens`, if there is one.
pub fn next_token(tokens: &mut VecDeque<Token>) -> (r: Option<Token>)
    ensures
        match r {
            Some(t) => {
                &&& old(tokens)@.len() > 0
                &&& t@ == tokens_view(old(tokens)@)[0]
                &&& tokens_view(final(tokens)@) == tokens_view(old(tokens)@).skip(1)
                &&& final(tokens)@.len() == old(tokens)@.len() - 1
            },
            None => old(tokens)@.len() == 0 && final(tokens)@ == old(tokens)@,
        },
{
    let r = tokens.pop_front();
    assert(tokens_view(tokens@) =~= if r is Some {
        tokens_view(old(tokens)@).skip(1)
    } else {
        tokens_view(old(tokens)@)
    });
    r
}

/// Drops tokens up to and with the first `;` or `}`, or all of them where
/// there is neither.
pub fn recover_token_stream(tokens: &mut VecDeque<Token>)
    ensures
        tokens_view(final(tokens)@) == recovered(tokens_view(old(tokens)@)),
{
    loop
        invariant
            recovered(tokens_view(tokens@)) == recovered(tokens_view(old(tokens)@)),
        decreases tokens@.len(),
    {
        match next_token(tokens) {
            Some(token) => {
                if token.is_symbol(Symbol::Semicolon) || token.is_symbol(Symbol::RightBrace) {
                    return ;
                }
            },
            None => {
                return ;
            },
        }
    }
}

/// Records the diagnostic that says `message` about the span `info`, and lets
/// the token stream recover.
pub fn parser_error(parser_context: &mut ParserContext, message: &str, info: &TokenInfo)
    ensures
        final(parser_context)@ == old(parser_context)@.fail(message@, *info),
{
    record_error(parser_context, message, info);
    recover_token_stream(&mut parser_context.tokens);
}

/// Parses the source text `source`: gives the program tree and the
/// diagnostics, in the order in which they were recorded.
pub fn parse_root(source: String) -> (r: (Root, Vec<ParserError>))
    ensures
        r.0@ == parse_root_spec(source@).statements,
        errors_view(r.1@) == parse_root_spec(source@).ctx.errors,
        all_declares_typed(r.0@),
        distinct_names(signatures_of(r.0@)),
        all_calls_resolved(r.0@, signatures_of(r.0@)),
        calls_name_earlier_functions(r.0@),
        forall|i: int| 0 <= i < r.0@.len() ==> scoped(#[trigger] r.0@[i], Set::empty()),
        increasing(minted_ids_all(r.0@)),
        errors_valid(errors_view(r.1@)),
{
    let ref_source = source.as_str();
    let tokens = lex(String::from_str(ref_source));
    let mut root = Root::new();
    let mut parser_context = ParserContext {
        source: ref_source,
        tokens,
        symbols_table: SymbolsTable::new(),
        errors: Vec::new(),
    };
    parser_context.symbols_table.push_scope();
    assert(parser_context@.errors =~= Seq::<ErrorView>::empty());
    assert(parser_context@ == root_context(source@));
    while parser_context.tokens.len() > 0
        invariant
            parse_block(parser_context@, root@) == parse_root_spec(source@),
        decreases parser_context.tokens@.len(),
    {
        proof {
            assert(parser_context@.tokens.len() == parser_context.tokens@.len());
            lemma_statement_progress(parser_context@, true);
        }
        let result = parse_statement(&mut parser_context, true);
        assert(parser_context@.tokens.len() == parser_context.tokens@.len());
        match result {
            Some(statement) => {
                root.add(statement);
            },
            None => {},
        }
    }
    assert(parser_context@.tokens.len() == parser_context.tokens@.len());
    proof {
        law_declarations_have_a_type(source@);
        law_function_names_are_distinct(source@);
        law_calls_are_resolved(source@);
        law_calls_name_earlier_functions(source@);
        law_variables_are_declared(source@);
        law_ids_are_fresh(source@);
        law_diagnostic_spans(source@);
    }
    (root, parser_context.errors)
}

} // verus!
