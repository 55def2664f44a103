//! The statement parser: recursive descent, driven by keywords.

use vstd::prelude::*;
use vstd::string::StringExecFns;
use std::collections::VecDeque;
use crate::ast::expression::Expression;
use crate::ast::statement::CompoundStatement;
use crate::ast::statement::Statement;
use crate::ast::statement::StatementBox;
use crate::ast::statement::StmtView;
use crate::ast::statement::optional_statement_view;
use crate::ast::statement::optional_view;
use crate::ast::statement::statements_view;
use crate::data::syms::Symbol;
use crate::data::text::concat3;
use crate::data::text::concat5;
use crate::data::vtype::FunctionSignature;
use crate::data::vtype::Parameter;
use crate::data::vtype::ParameterView;
use crate::data::vtype::VType;
use crate::data::vtype::copy_parameters;
use crate::data::vtype::parameters_view;
use crate::parser::ParserContext;
use crate::parser::expression::parse_expression;
use crate::parser::expression::take_window;
use crate::parser::grammar::closing;
use crate::parser::grammar::expression_window;
use crate::parser::grammar::lemma_closing_bounds;
use crate::parser::grammar::msg_expected_symbol;
use crate::parser::grammar::msg_no_expression;
use crate::parser::grammar::msg_not_allowed;
use crate::parser::grammar::parse_block;
use crate::parser::grammar::parse_compound_spec;
use crate::parser::grammar::parse_function_spec;
use crate::parser::grammar::parse_let_spec;
use crate::parser::grammar::parse_parameters_spec;
use crate::parser::grammar::parse_plain_spec;
use crate::parser::grammar::parse_return_spec;
use crate::parser::grammar::parse_set_spec;
use crate::parser::grammar::parse_statement_spec;
use crate::parser::grammar::symbol_at;
use crate::parser::laws::lemma_header_tokens;
use crate::parser::laws::lemma_statement_progress;
use crate::parser::merge_errors;
use crate::parser::next_token;
use crate::parser::parser_error;
use crate::parser::record_error;
use crate::parser::sub_context;
use crate::parser::token::IdentifierToken;
use crate::parser::token::Payload;
use crate::parser::token::SymbolToken;
use crate::parser::token::Token;
use crate::parser::token::TokenType;
use crate::parser::token::TokenView;
use crate::parser::token::TypeToken;
use crate::parser::token::push_copy;
use crate::parser::token::push_token;
use crate::parser::token::tokens_view;

verus! {

/// Takes off `tokens` what stands before the first symbol `sym`, and that
/// symbol with it; everything where there is none. A copy of each token taken
/// goes to `seen`.
pub fn take_until(tokens: &mut VecDeque<Token>, seen: &mut VecDeque<Token>, sym: Symbol) -> (r: VecDeque<
    Token,
>)
    ensures
        ({
            let before = tokens_view(old(tokens)@);
            let k = symbol_at(before, sym, 0);
            &&& tokens_view(r@) == before.take(k)
            &&& r@.len() == k
            &&& tokens_view(final(tokens)@) == if k < before.len() {
                before.skip(k + 1)
            } else {
                Seq::<TokenView>::empty()
            }
            &&& tokens_view(final(seen)@) == tokens_view(old(seen)@) + if k < before.len() {
                before.take(k + 1)
            } else {
                before
            }
        }),
{
    let ghost before = tokens_view(old(tokens)@);
    let mut window: VecDeque<Token> = VecDeque::new();
    let ghost mut i: int = 0;
    assert(tokens_view(window@) =~= before.take(0));
    assert(tokens_view(tokens@) =~= before.skip(0));
    assert(tokens_view(seen@) =~= tokens_view(old(seen)@) + before.take(0));
    loop
        invariant
            before == tokens_view(old(tokens)@),
            0 <= i <= before.len(),
            tokens@.len() == before.len() - i,
            window@.len() == i,
            tokens_view(tokens@) == before.skip(i),
            tokens_view(window@) == before.take(i),
            tokens_view(seen@) == tokens_view(old(seen)@) + before.take(i),
            symbol_at(before, sym, 0) == symbol_at(before, sym, i),
        decreases before.len() - i,
    {
        match next_token(tokens) {
            None => {
                proof {
                    assert(i == before.len());
                    assert(before.take(i) =~= before);
                    assert(tokens_view(tokens@) =~= Seq::<TokenView>::empty());
                }
                return window;
            },
            Some(token) => {
                assert(token@ == before[i]);
                push_copy(seen, &token);
                proof {
                    assert(before.take(i).push(before[i]) =~= before.take(i + 1));
                    assert(tokens_view(seen@) =~= tokens_view(old(seen)@) + before.take(i + 1));
                    assert(before.skip(i).skip(1) =~= before.skip(i + 1));
                }
                if token.is_symbol(sym) {
                    return window;
                }
                push_token(&mut window, token);
                proof {
                    assert(tokens_view(window@).len() == window@.len());
                    i = i + 1;
                }
            },
        }
    }
}

/// What reading the expression of a statement gives: the expression unless
/// its parse failed, and whether nothing stood before the `;`.
pub struct Window {
    pub result: Option<Expression>,
    pub empty: bool,
}

/// Reads the expression that stands before the first `;` and that `;`, and
/// parses the expression in a context of its own, whose diagnostics it takes
/// over. A copy of each token read goes to `seen`.
pub fn parse_window(parser_context: &mut ParserContext, seen: &mut VecDeque<Token>) -> (r: Window)
    ensures
        ({
            let w = expression_window(old(parser_context)@);
            &&& final(parser_context)@ == w.ctx
            &&& tokens_view(final(seen)@) == tokens_view(old(seen)@) + w.read
            &&& optional_view(r.result) == w.result
            &&& r.empty == w.empty
        }),
{
    let expr_tokens = take_until(&mut parser_context.tokens, seen, Symbol::Semicolon);
    let empty = expr_tokens.len() == 0;
    let mut expr_context = sub_context(parser_context, expr_tokens);
    let result = parse_expression(&mut expr_context);
    merge_errors(&mut parser_context.errors, &mut expr_context.errors);
    Window { result, empty }
}

/// The message that says that the statement `keyword` may not stand here.
fn not_allowed(keyword: &str) -> (r: String)
    ensures
        r@ == msg_not_allowed(keyword@),
{
    concat3("`", keyword, "` statement is not allowed here")
}

/// The message that says that the statement `keyword` has no expression.
fn no_expression(keyword: &str) -> (r: String)
    ensures
        r@ == msg_no_expression(keyword@),
{
    concat3("no expression parsed for `", keyword, "` statement")
}

/// Parses the statement `return` behind its keyword.
pub fn parse_return(parser_context: &mut ParserContext, keyword: Token) -> (r: Option<Statement>)
    ensures
        final(parser_context)@ == parse_return_spec(old(parser_context)@, keyword@).ctx,
        optional_statement_view(r) == parse_return_spec(old(parser_context)@, keyword@).result,
{
    let info = keyword.info();
    if parser_context.symbols_table.scope() == 1 {
        let message = not_allowed("return");
        parser_error(parser_context, message.as_str(), &info);
        return None;
    }
    let mut tokens: VecDeque<Token> = VecDeque::new();
    push_token(&mut tokens, keyword);
    let ghost errors = parser_context@.errors;
    let w = parse_window(parser_context, &mut tokens);
    assert(tokens_view(tokens@) =~= seq![keyword@] + expression_window(old(parser_context)@).read);
    if w.empty {
        proof {
            assert(parser_context@.errors =~= errors);
        }
        return Some(Statement::new_function_return(tokens, None));
    }
    match w.result {
        Some(e) => Some(Statement::new_function_return(tokens, Some(e))),
        None => {
            let message = no_expression("return");
            parser_error(parser_context, message.as_str(), &info);
            None
        },
    }
}

/// Parses the statement `print` or `express`, whichever `word` says, behind
/// its keyword.
pub fn parse_plain(parser_context: &mut ParserContext, keyword: Token, word: &str) -> (r: Option<
    Statement,
>)
    ensures
        final(parser_context)@ == parse_plain_spec(old(parser_context)@, keyword@, word@).ctx,
        optional_statement_view(r) == parse_plain_spec(old(parser_context)@, keyword@, word@).result,
{
    let info = keyword.info();
    if parser_context.symbols_table.scope() == 1 {
        let message = not_allowed(word);
        parser_error(parser_context, message.as_str(), &info);
        return None;
    }
    let mut tokens: VecDeque<Token> = VecDeque::new();
    push_token(&mut tokens, keyword);
    let w = parse_window(parser_context, &mut tokens);
    assert(tokens_view(tokens@) =~= seq![keyword@] + expression_window(old(parser_context)@).read);
    match w.result {
        Some(e) => {
            if String::from_str(word) == String::from_str("print") {
                Some(Statement::new_print(tokens, e))
            } else {
                Some(Statement::new_expression(tokens, e))
            }
        },
        None => {
            let message = no_expression(word);
            parser_error(parser_context, message.as_str(), &info);
            None
        },
    }
}

/// Checks that `equal` is the symbol `=`; where it is not, fails the parse
/// with the message that `middle` completes, or with `plain` where `equal` is
/// no symbol at all.
fn expect_equal(parser_context: &mut ParserContext, equal: &Token, middle: &str, plain: &str) -> (r: bool)
    ensures
        r == equal@.is_symbol(Symbol::Equal),
        r ==> final(parser_context)@ == old(parser_context)@,
        !r ==> final(parser_context)@ == old(parser_context)@.fail(
            match equal@.payload {
                Payload::Symbol(sym) => msg_expected_symbol(
                    "expected symbol `"@,
                    Symbol::Equal,
                    middle@,
                    sym,
                ),
                _ => plain@,
            },
            equal@.info,
        ),
{
    let info = equal.info();
    match equal.as_token::<SymbolToken>() {
        Some(t) => {
            let sym = t.sym();
            if sym != Symbol::Equal {
                let message = concat5("expected symbol `", Symbol::Equal.name(), middle, sym.name(), "`");
                parser_error(parser_context, message.as_str(), &info);
                false
            } else {
                true
            }
        },
        None => {
            parser_error(parser_context, plain, &info);
            false
        },
    }
}

/// Parses the statement `let` behind its keyword.
pub fn parse_let(parser_context: &mut ParserContext, keyword: Token) -> (r: Option<Statement>)
    ensures
        final(parser_context)@ == parse_let_spec(old(parser_context)@, keyword@).ctx,
        optional_statement_view(r) == parse_let_spec(old(parser_context)@, keyword@).result,
{
    let info = keyword.info();
    if parser_context.symbols_table.scope() == 1 {
        let message = not_allowed("let");
        parser_error(parser_context, message.as_str(), &info);
        return None;
    }
    let mut tokens: VecDeque<Token> = VecDeque::new();
    push_token(&mut tokens, keyword);
    let t_name = match next_token(&mut parser_context.tokens) {
        Some(t) => t,
        None => {
            parser_error(
                parser_context,
                "tokens should not end here, expected an identifier token",
                &info,
            );
            return None;
        },
    };
    let name_info = t_name.info();
    let i_name = match t_name.as_token::<IdentifierToken>() {
        Some(t) => t.name(),
        None => {
            parser_error(parser_context, "expected identifier token after `let`", &name_info);
            return None;
        },
    };
    push_copy(&mut tokens, &t_name);
    let t_type_token = match next_token(&mut parser_context.tokens) {
        Some(t) => t,
        None => {
            parser_error(parser_context, "tokens should not end here, expected a type token", &name_info);
            return None;
        },
    };
    let type_info = t_type_token.info();
    let vtype = match t_type_token.as_token::<TypeToken>() {
        Some(t) => t.vtype(),
        None => {
            let message = concat3("expected a type token after identifier `", i_name.as_str(), "`");
            parser_error(parser_context, message.as_str(), &type_info);
            return None;
        },
    };
    if vtype == VType::Void {
        let message = concat3("variable `", i_name.as_str(), "` has incomplete type `void`");
        parser_error(parser_context, message.as_str(), &type_info);
        return None;
    }
    push_copy(&mut tokens, &t_type_token);
    let eq_token = match next_token(&mut parser_context.tokens) {
        Some(t) => t,
        None => {
            parser_error(
                parser_context,
                "tokens should not end here, expected '=' after type token",
                &type_info,
            );
            return None;
        },
    };
    if !expect_equal(
        parser_context,
        &eq_token,
        "` after type in `let` statement, got `",
        "expected symbol `=` after type",
    ) {
        return None;
    }
    push_copy(&mut tokens, &eq_token);
    let ghost c3 = parser_context@;
    let w = parse_window(parser_context, &mut tokens);
    assert(tokens_view(tokens@) =~= seq![keyword@, t_name@, t_type_token@, eq_token@]
        + expression_window(c3).read);
    match w.result {
        Some(e) => {
            if !parser_context.symbols_table.can_define() {
                let message = concat3(
                    "identifier `",
                    i_name.as_str(),
                    "` cannot be declared, no id is left",
                );
                parser_error(parser_context, message.as_str(), &name_info);
                return None;
            }
            let id = parser_context.symbols_table.next_id();
            parser_context.symbols_table.define(i_name.as_str(), vtype);
            Some(Statement::new_declare(tokens, vtype, id, e))
        },
        None => {
            let message = no_expression("let");
            parser_error(parser_context, message.as_str(), &info);
            None
        },
    }
}

/// Parses the statement `set` behind its keyword.
pub fn parse_set(parser_context: &mut ParserContext, keyword: Token) -> (r: Option<Statement>)
    ensures
        final(parser_context)@ == parse_set_spec(old(parser_context)@, keyword@).ctx,
        optional_statement_view(r) == parse_set_spec(old(parser_context)@, keyword@).result,
{
    let info = keyword.info();
    if parser_context.symbols_table.scope() == 1 {
        let message = not_allowed("set");
        parser_error(parser_context, message.as_str(), &info);
        return None;
    }
    let mut tokens: VecDeque<Token> = VecDeque::new();
    push_token(&mut tokens, keyword);
    let t_name = match next_token(&mut parser_context.tokens) {
        Some(t) => t,
        None => {
            parser_error(
                parser_context,
                "tokens should not end here, expected an identifier token",
                &info,
            );
            return None;
        },
    };
    let name_info = t_name.info();
    let i_name = match t_name.as_token::<IdentifierToken>() {
        Some(t) => t.name(),
        None => {
            parser_error(parser_context, "expected identifier token after `set`", &name_info);
            return None;
        },
    };
    push_copy(&mut tokens, &t_name);
    let id = match parser_context.symbols_table.get_id(i_name.as_str()) {
        Some(id) => id,
        None => {
            let message = concat3(
                "identifier `",
                i_name.as_str(),
                "` not declared in the current scope.",
            );
            parser_error(parser_context, message.as_str(), &name_info);
            return None;
        },
    };
    let eq_token = match next_token(&mut parser_context.tokens) {
        Some(t) => t,
        None => {
            parser_error(
                parser_context,
                "tokens should not end here, expected '=' after identifier token",
                &name_info,
            );
            return None;
        },
    };
    if !expect_equal(
        parser_context,
        &eq_token,
        "` after identifier in `set` statement, got `",
        "expected symbol `=` after identifier",
    ) {
        return None;
    }
    push_copy(&mut tokens, &eq_token);
    let ghost c2 = parser_context@;
    let w = parse_window(parser_context, &mut tokens);
    assert(tokens_view(tokens@) =~= seq![keyword@, t_name@, eq_token@] + expression_window(c2).read);
    match w.result {
        Some(e) => Some(Statement::new_assign(tokens, id, e)),
        None => {
            let message = no_expression("set");
            parser_error(parser_context, message.as_str(), &info);
            None
        },
    }
}

/// Parses the parameters that `window` holds and binds each in the innermost
/// scope. A copy of each type and of each `,` goes to `seen`.
pub fn parse_parameters(parser_context: &mut ParserContext, window: VecDeque<Token>, seen: &mut VecDeque<
    Token,
>) -> (r: Option<VecDeque<Parameter>>)
    ensures
        ({
            let o = parse_parameters_spec(
                old(parser_context)@,
                tokens_view(window@),
                tokens_view(old(seen)@),
                Seq::empty(),
            );
            &&& final(parser_context)@ == o.ctx
            &&& o.ok ==> r is Some && parameters_view(r->0@) == o.parameters && tokens_view(
                final(seen)@,
            ) == o.read
            &&& !o.ok ==> r is None
        }),
{
    let ghost goal = parse_parameters_spec(
        parser_context@,
        tokens_view(window@),
        tokens_view(seen@),
        Seq::empty(),
    );
    let mut sub_tokens = window;
    let mut parameters: VecDeque<Parameter> = VecDeque::new();
    assert(parameters_view(parameters@) =~= Seq::<ParameterView>::empty());
    loop
        invariant
            goal == parse_parameters_spec(
                old(parser_context)@,
                tokens_view(window@),
                tokens_view(old(seen)@),
                Seq::empty(),
            ),
            parse_parameters_spec(
                parser_context@,
                tokens_view(sub_tokens@),
                tokens_view(seen@),
                parameters_view(parameters@),
            ) == goal,
        decreases sub_tokens@.len(),
    {
        let ghost left = tokens_view(sub_tokens@);
        assert(left.len() == sub_tokens@.len());
        let sub_token = match next_token(&mut sub_tokens) {
            Some(t) => t,
            None => {
                return Some(parameters);
            },
        };
        let name_info = sub_token.info();
        let param_id = match sub_token.as_token::<IdentifierToken>() {
            Some(t) => t.name(),
            None => {
                parser_error(parser_context, "expected identifier token", &name_info);
                return None;
            },
        };
        let type_token = match next_token(&mut sub_tokens) {
            Some(t) => t,
            None => {
                parser_error(
                    parser_context,
                    "tokens should not end here, expected a type token",
                    &name_info,
                );
                return None;
            },
        };
        assert(type_token@ == left[1]);
        let type_info = type_token.info();
        let param_vtype = match type_token.as_token::<TypeToken>() {
            Some(t) => t.vtype(),
            None => {
                let message = concat3(
                    "expected type token after param identifier `",
                    param_id.as_str(),
                    "`",
                );
                parser_error(parser_context, message.as_str(), &type_info);
                return None;
            },
        };
        push_copy(seen, &type_token);
        assert(tokens_view(sub_tokens@) =~= left.skip(2));
        match next_token(&mut sub_tokens) {
            Some(comma_token) => {
                assert(comma_token@ == left[2]);
                assert(tokens_view(sub_tokens@) =~= left.skip(3));
                let comma_info = comma_token.info();
                match comma_token.as_token::<SymbolToken>() {
                    Some(t) => {
                        let sym = t.sym();
                        if sym != Symbol::Comma {
                            let message = concat5(
                                "expected symbol `",
                                Symbol::Comma.name(),
                                "` to end param entry, got `",
                                sym.name(),
                                "`",
                            );
                            parser_error(parser_context, message.as_str(), &comma_info);
                            return None;
                        }
                    },
                    None => {
                        let message = concat3(
                            "expected symbol token after param type, got `",
                            comma_token.get_type().name(),
                            "`",
                        );
                        parser_error(parser_context, message.as_str(), &comma_info);
                        return None;
                    },
                }
                if sub_tokens.len() == 0 {
                    parser_error(
                        parser_context,
                        "tokens should not end here, expected an identifier token",
                        &comma_info,
                    );
                    return None;
                }
                push_copy(seen, &comma_token);
            },
            None => {},
        }
        if !parser_context.symbols_table.can_define() {
            let message = concat3(
                "identifier `",
                param_id.as_str(),
                "` cannot be declared, no id is left",
            );
            parser_error(parser_context, message.as_str(), &name_info);
            return None;
        }
        let id = parser_context.symbols_table.next_id();
        parser_context.symbols_table.define(param_id.as_str(), param_vtype);
        let ghost done = parameters_view(parameters@);
        parameters.push_back(Parameter::new(id, param_vtype));
        assert(parameters_view(parameters@) =~= done.push(ParameterView { id, vtype: param_vtype }));
    }
}

/// The view of an optional compound statement.
pub open spec fn optional_compound_view(s: Option<CompoundStatement>) -> Option<StmtView> {
    match s {
        Some(x) => Some(x@),
        None => None,
    }
}

/// Parses the function statement behind its keyword: a declaration, or a
/// definition with its body.
pub fn parse_function(parser_context: &mut ParserContext, keyword: Token) -> (r: Option<Statement>)
    ensures
        final(parser_context)@ == parse_function_spec(old(parser_context)@, keyword@).ctx,
        optional_statement_view(r) == parse_function_spec(old(parser_context)@, keyword@).result,
    decreases old(parser_context).tokens@.len(), 3int,
{
    let ghost rest = parser_context@;
    proof {
        lemma_header_tokens(rest, keyword@);
    }
    let info = keyword.info();
    if parser_context.symbols_table.scope() != 1 {
        parser_error(
            parser_context,
            "function declaration or definition is not allowed here",
            &info,
        );
        return None;
    }
    let mut tokens: VecDeque<Token> = VecDeque::new();
    push_token(&mut tokens, keyword);
    let t_name = match next_token(&mut parser_context.tokens) {
        Some(t) => t,
        None => {
            parser_error(
                parser_context,
                "tokens should not end here, expected an identifier token",
                &info,
            );
            return None;
        },
    };
    let name_info = t_name.info();
    let func_name = match t_name.as_token::<IdentifierToken>() {
        Some(t) => t.name(),
        None => {
            parser_error(parser_context, "expected identifier token after `function`", &name_info);
            return None;
        },
    };
    push_copy(&mut tokens, &t_name);
    let t_sym = match next_token(&mut parser_context.tokens) {
        Some(t) => t,
        None => {
            parser_error(
                parser_context,
                "tokens should not end here, expected a symbol token",
                &name_info,
            );
            return None;
        },
    };
    let sym_info = t_sym.info();
    match t_sym.as_token::<SymbolToken>() {
        Some(t) => {
            let symbol = t.sym();
            if symbol != Symbol::LeftParen {
                let message = concat5(
                    "expected symbol `",
                    Symbol::LeftParen.name(),
                    "` to begin parameter list in function signature, got `",
                    symbol.name(),
                    "`",
                );
                parser_error(parser_context, message.as_str(), &sym_info);
                return None;
            }
        },
        None => {
            parser_error(
                parser_context,
                "expected a symbol token after function identifier in signature",
                &sym_info,
            );
            return None;
        },
    }
    push_copy(&mut tokens, &t_sym);
    assert(tokens_view(tokens@) =~= seq![keyword@, t_name@, t_sym@]);
    let sub_tokens = take_until(&mut parser_context.tokens, &mut tokens, Symbol::RightParen);
    parser_context.symbols_table.push_scope();
    let parameters = match parse_parameters(parser_context, sub_tokens, &mut tokens) {
        Some(p) => p,
        None => {
            parser_context.symbols_table.pop_scope();
            return None;
        },
    };
    let t_type_token = match next_token(&mut parser_context.tokens) {
        Some(t) => t,
        None => {
            parser_error(parser_context, "tokens should not end here, expected a type token", &name_info);
            parser_context.symbols_table.pop_scope();
            return None;
        },
    };
    let type_info = t_type_token.info();
    let vtype = match t_type_token.as_token::<TypeToken>() {
        Some(t) => t.vtype(),
        None => {
            let message = concat3(
                "expected type token to end function signature with identifier `",
                func_name.as_str(),
                "`",
            );
            parser_error(parser_context, message.as_str(), &type_info);
            parser_context.symbols_table.pop_scope();
            return None;
        },
    };
    if parser_context.symbols_table.get_function(func_name.as_str()).is_some() {
        parser_context.tokens.clear();
        assert(tokens_view(parser_context.tokens@) =~= Seq::<TokenView>::empty());
        let message = concat3("Function ", func_name.as_str(), " already defined");
        record_error(parser_context, message.as_str(), &name_info);
        parser_context.symbols_table.pop_scope();
        return None;
    }
    let last = match next_token(&mut parser_context.tokens) {
        Some(t) => t,
        None => {
            parser_error(
                parser_context,
                "tokens should not end here, expected a symbol token",
                &name_info,
            );
            parser_context.symbols_table.pop_scope();
            return None;
        },
    };
    let last_info = last.info();
    push_copy(&mut tokens, &t_type_token);
    push_copy(&mut tokens, &last);
    let sym = match last.as_token::<SymbolToken>() {
        Some(t) => t.sym(),
        None => {
            parser_error(parser_context, "expected a symbol token after function signature", &last_info);
            parser_context.symbols_table.pop_scope();
            return None;
        },
    };
    match sym {
        Symbol::Semicolon => {
            parser_context.symbols_table.define_function(
                func_name.as_str(),
                vtype,
                copy_parameters(&parameters),
            );
            parser_context.symbols_table.pop_scope();
            let func_sign = FunctionSignature::new(func_name, vtype, parameters);
            Some(Statement::new_function_declare(tokens, func_sign))
        },
        Symbol::LeftBrace => {
            parser_context.symbols_table.define_function(
                func_name.as_str(),
                vtype,
                copy_parameters(&parameters),
            );
            let func_sign = FunctionSignature::new(func_name, vtype, parameters);
            assert(parser_context@.tokens.len() == parser_context.tokens@.len());
            match parse_compound(parser_context, last, false) {
                Some(body) => {
                    parser_context.symbols_table.pop_scope();
                    Some(Statement::new_function_define(tokens, func_sign, body))
                },
                None => {
                    parser_context.symbols_table.retract_function();
                    parser_context.symbols_table.pop_scope();
                    None
                },
            }
        },
        _ => {
            let mut message = concat5(
                "expected symbol `",
                Symbol::Semicolon.name(),
                "` or `",
                Symbol::LeftBrace.name(),
                "` after function signature, got `",
            );
            message.append(sym.name());
            message.append("`");
            parser_error(parser_context, message.as_str(), &last_info);
            parser_context.symbols_table.pop_scope();
            None
        },
    }
}

/// Parses the compound statement whose `{` is `brace`: takes the tokens up to
/// the `}` that closes it and parses them, statement by statement, in a
/// context of their own.
pub fn parse_compound(parser_context: &mut ParserContext, brace: Token, manage_scope: bool) -> (r: Option<
    CompoundStatement,
>)
    ensures
        final(parser_context)@ == parse_compound_spec(
            old(parser_context)@,
            brace@,
            manage_scope,
        ).ctx,
        optional_compound_view(r) == parse_compound_spec(
            old(parser_context)@,
            brace@,
            manage_scope,
        ).result,
    decreases old(parser_context).tokens@.len(), 2int,
{
    let ghost ctx = parser_context@;
    proof {
        lemma_closing_bounds(ctx.tokens, Symbol::LeftBrace, Symbol::RightBrace, 0, 1);
        assert(ctx.tokens.len() == parser_context.tokens@.len());
    }
    let info = brace.info();
    let mut tokens: VecDeque<Token> = VecDeque::new();
    push_token(&mut tokens, brace);
    let sub_tokens = match take_window(
        &mut parser_context.tokens,
        &mut tokens,
        Symbol::LeftBrace,
        Symbol::RightBrace,
    ) {
        Some(w) => w,
        None => {
            parser_error(parser_context, "no close braces found for compound statement", &info);
            return None;
        },
    };
    assert(tokens_view(sub_tokens@).len() == sub_tokens@.len());
    let mut sub_context = sub_context(parser_context, sub_tokens);
    if manage_scope {
        sub_context.symbols_table.push_scope();
    }
    let mut statements: VecDeque<Statement> = VecDeque::new();
    let ghost goal = parse_block(sub_context@, Seq::empty());
    let ghost bound = sub_context.tokens@.len();
    assert(statements_view(statements@) =~= Seq::<StmtView>::empty());
    while sub_context.tokens.len() > 0
        invariant
            parse_block(sub_context@, statements_view(statements@)) == goal,
            sub_context.tokens@.len() <= bound,
            bound < old(parser_context).tokens@.len(),
        decreases sub_context.tokens@.len(),
    {
        proof {
            assert(sub_context@.tokens.len() == sub_context.tokens@.len());
            lemma_statement_progress(sub_context@, true);
        }
        let ghost done = statements_view(statements@);
        let result = parse_statement(&mut sub_context, true);
        assert(sub_context@.tokens.len() == sub_context.tokens@.len());
        match result {
            Some(s) => {
                statements.push_back(s);
                assert(statements_view(statements@) =~= done.push(s@));
            },
            None => {},
        }
    }
    assert(sub_context@.tokens.len() == sub_context.tokens@.len());
    if manage_scope {
        sub_context.symbols_table.pop_scope();
    }
    merge_errors(&mut parser_context.errors, &mut sub_context.errors);
    parser_context.symbols_table = sub_context.symbols_table;
    assert(tokens_view(tokens@) =~= seq![brace@] + ctx.tokens.take(
        closing(ctx.tokens, Symbol::LeftBrace, Symbol::RightBrace, 0, 1) + 1,
    ));
    Some(CompoundStatement::new(tokens, statements))
}

/// Parses the statement that the tokens of `parser_context` begin with.
///
/// Gives the statement, or nothing where the tokens begin none; then the
/// diagnostics say why, and the token stream has recovered.
pub fn parse_statement(parser_context: &mut ParserContext, manage_scope: bool) -> (r: Option<Statement>)
    ensures
        final(parser_context)@ == parse_statement_spec(old(parser_context)@, manage_scope).ctx,
        optional_statement_view(r) == parse_statement_spec(old(parser_context)@, manage_scope).result,
    decreases old(parser_context).tokens@.len(), 0int,
{
    let ghost ctx = parser_context@;
    assert(ctx.tokens.len() == parser_context.tokens@.len());
    let t = match next_token(&mut parser_context.tokens) {
        Some(t) => t,
        None => {
            return None;
        },
    };
    assert(parser_context@ == ctx.advance());
    assert(parser_context@.tokens.len() == parser_context.tokens@.len());
    let info = t.info();
    match t.get_type() {
        TokenType::Symbol => {
            let sym = t.as_token::<SymbolToken>().unwrap().sym();
            if sym != Symbol::LeftBrace {
                let message = concat5(
                    "expected symbol `",
                    Symbol::LeftBrace.name(),
                    "` when beginning a statement, got `",
                    sym.name(),
                    "`",
                );
                parser_error(parser_context, message.as_str(), &info);
                return None;
            }
            match parse_compound(parser_context, t, manage_scope) {
                Some(c) => Some(Statement::new(StatementBox::Compound(c))),
                None => None,
            }
        },
        TokenType::Identifier => {
            let word = t.as_token::<IdentifierToken>().unwrap().name();
            if word == String::from_str("function") {
                parse_function(parser_context, t)
            } else if word == String::from_str("return") {
                parse_return(parser_context, t)
            } else if word == String::from_str("let") {
                parse_let(parser_context, t)
            } else if word == String::from_str("set") {
                parse_set(parser_context, t)
            } else if word == String::from_str("print") {
                parse_plain(parser_context, t, "print")
            } else if word == String::from_str("express") {
                parse_plain(parser_context, t, "express")
            } else {
                let message = concat3(
                    "unexpected identifier `",
                    word.as_str(),
                    "` when beginning a statement",
                );
                parser_error(parser_context, message.as_str(), &info);
                None
            }
        },
        _ => {
            let message = concat3(
                "unexpected token `",
                t.get_type().name(),
                "` when beginning a statement",
            );
            parser_error(parser_context, message.as_str(), &info);
            None
        },
    }
}

} // verus!
