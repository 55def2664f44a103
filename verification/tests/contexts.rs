use lang_frontend::ast::expression::ExpressionType;
use lang_frontend::ast::statement::StatementType;
use lang_frontend::data::syms::Symbol;
use lang_frontend::data::vtype::VType;
use lang_frontend::parser::expression::count_arguments;
use lang_frontend::parser::expression::parse_expression;
use lang_frontend::parser::expression::precedence_of;
use lang_frontend::parser::expression::take_argument;
use lang_frontend::parser::expression::take_window;
use lang_frontend::parser::grammar::Operator;
use lang_frontend::parser::lexer::lex;
use lang_frontend::parser::next_token;
use lang_frontend::parser::parser_error;
use lang_frontend::parser::record_error;
use lang_frontend::parser::recover_token_stream;
use lang_frontend::parser::statement::parse_statement;
use lang_frontend::parser::statement::take_until;
use lang_frontend::parser::symbols_table::SymbolsTable;
use lang_frontend::parser::token::TokenInfo;
use lang_frontend::parser::ParserContext;
use std::collections::VecDeque;

fn context(source: &str, depth: usize) -> ParserContext<'_> {
    let mut symbols_table = SymbolsTable::new();
    for _ in 0..depth {
        symbols_table.push_scope();
    }
    ParserContext { source, tokens: lex(source.to_string()), symbols_table, errors: Vec::new() }
}

#[test]
fn an_empty_window_gives_no_expression_and_no_diagnostic() {
    let mut ctx = context("", 2);
    assert!(parse_expression(&mut ctx).is_none());
    assert_eq!(ctx.errors.len(), 0);
}

#[test]
fn no_tokens_give_no_statement() {
    let mut ctx = context("", 1);
    assert!(parse_statement(&mut ctx, true).is_none());
    assert_eq!(ctx.errors.len(), 0);
}

#[test]
fn an_expression_reads_its_window_to_the_end() {
    let mut ctx = context("1 < 2 and 3 >= 4 or true", 2);
    let e = parse_expression(&mut ctx).unwrap();
    assert_eq!(ctx.tokens.len(), 0);
    assert_eq!(ctx.errors.len(), 0);
    assert_eq!(e.expression_type(), ExpressionType::Boolean);
    assert_eq!(e.virtual_type(), VType::Boolean);
}

#[test]
fn a_variable_has_the_type_of_its_binding() {
    let mut ctx = context("x", 1);
    ctx.symbols_table.define("x", VType::Boolean);
    let e = parse_expression(&mut ctx).unwrap();
    assert_eq!(e.virtual_type(), VType::Boolean);
    assert_eq!(e.expression_type(), ExpressionType::Variable);
}

#[test]
fn a_failed_expression_recovers_within_its_window() {
    let mut ctx = context("1 + ) 2 ; 3", 2);
    assert!(parse_expression(&mut ctx).is_none());
    assert_eq!(ctx.errors.len(), 1);
    assert_eq!(ctx.errors[0].message, "expected a matched right parenthesis");
    assert_eq!(ctx.tokens.len(), 1);
}

#[test]
fn a_statement_leaves_what_follows_it() {
    let mut ctx = context("print 1; print 2;", 2);
    let s = parse_statement(&mut ctx, true).unwrap();
    assert_eq!(s.stype(), StatementType::Print);
    assert_eq!(ctx.tokens.len(), 3);
    assert_eq!(ctx.symbols_table.scope(), 2);
}

#[test]
fn a_compound_statement_keeps_its_names_to_itself() {
    let mut ctx = context("{ let x int = 1; } print x;", 1);
    let s = parse_statement(&mut ctx, true).unwrap();
    assert_eq!(s.stype(), StatementType::Compound);
    assert_eq!(ctx.symbols_table.scope(), 1);
    assert_eq!(ctx.symbols_table.get_id("x"), None);
    assert_eq!(ctx.symbols_table.next_id(), 1);
    let mut ctx = context("{ let x int = 1; }", 2);
    let s = parse_statement(&mut ctx, false).unwrap();
    assert_eq!(s.stype(), StatementType::Compound);
    assert_eq!(ctx.symbols_table.scope(), 2);
    assert_eq!(ctx.symbols_table.get_id("x"), Some(0));
}

#[test]
fn a_function_leaves_its_signature_and_its_scope() {
    let mut ctx = context("function f(a int) bool { return a == 1; }", 1);
    let s = parse_statement(&mut ctx, true).unwrap();
    assert_eq!(s.stype(), StatementType::FunctionDefine);
    assert_eq!(ctx.symbols_table.scope(), 1);
    assert_eq!(ctx.symbols_table.get_id("a"), None);
    assert_eq!(ctx.symbols_table.get_function("f").unwrap().return_type(), VType::Boolean);
    let mut ctx = context("function f(a int) bool { return a == 1;", 1);
    assert!(parse_statement(&mut ctx, true).is_none());
    assert_eq!(ctx.symbols_table.scope(), 1);
    assert!(ctx.symbols_table.get_function("f").is_none());
    assert_eq!(ctx.tokens.len(), 0);
}

#[test]
fn recovery_stops_behind_a_semicolon_or_a_closing_brace() {
    let mut tokens = lex("a b ; c } d".to_string());
    recover_token_stream(&mut tokens);
    assert_eq!(tokens.len(), 3);
    recover_token_stream(&mut tokens);
    assert_eq!(tokens.len(), 1);
    recover_token_stream(&mut tokens);
    assert_eq!(tokens.len(), 0);
    recover_token_stream(&mut tokens);
    assert_eq!(tokens.len(), 0);
}

#[test]
fn tokens_are_taken_from_the_front() {
    let mut tokens = lex("a b".to_string());
    assert_eq!(next_token(&mut tokens).unwrap().info().column_begin, 1);
    assert_eq!(next_token(&mut tokens).unwrap().info().column_begin, 3);
    assert!(next_token(&mut tokens).is_none());
}

#[test]
fn a_diagnostic_is_recorded_with_its_line() {
    let mut ctx = context("first\nsecond ; third", 1);
    let info = TokenInfo { line: 2, column_begin: 1, column_end: 6 };
    record_error(&mut ctx, "one", &info);
    assert_eq!(ctx.tokens.len(), 4);
    assert_eq!(ctx.errors.len(), 1);
    assert_eq!(ctx.errors[0].message, "one");
    assert_eq!(ctx.errors[0].context_line, "second ; third");
    assert_eq!((ctx.errors[0].line, ctx.errors[0].column_begin, ctx.errors[0].column_end), (2, 1, 6));
    parser_error(&mut ctx, "two", &TokenInfo { line: 9, column_begin: 1, column_end: 1 });
    assert_eq!(ctx.tokens.len(), 1);
    assert_eq!(ctx.errors[1].message, "two");
    assert_eq!(ctx.errors[1].context_line, "");
}

#[test]
fn a_window_ends_at_the_bracket_that_closes_it() {
    let mut tokens = lex("a ( b ) c ) d ( e".to_string());
    let mut seen = VecDeque::new();
    let window = take_window(&mut tokens, &mut seen, Symbol::LeftParen, Symbol::RightParen).unwrap();
    assert_eq!(window.len(), 5);
    assert_eq!(seen.len(), 6);
    assert_eq!(tokens.len(), 3);
    assert!(take_window(&mut tokens, &mut seen, Symbol::LeftParen, Symbol::RightParen).is_none());
    assert_eq!(tokens.len(), 0);
    assert_eq!(seen.len(), 9);
}

#[test]
fn a_window_ends_at_the_first_symbol() {
    let mut tokens = lex("a ( b ; c".to_string());
    let mut seen = VecDeque::new();
    let window = take_until(&mut tokens, &mut seen, Symbol::Semicolon);
    assert_eq!(window.len(), 3);
    assert_eq!(seen.len(), 4);
    assert_eq!(tokens.len(), 1);
    let window = take_until(&mut tokens, &mut seen, Symbol::Semicolon);
    assert_eq!(window.len(), 1);
    assert_eq!(seen.len(), 5);
    assert_eq!(tokens.len(), 0);
}

#[test]
fn arguments_are_split_at_commas_outside_parentheses() {
    let tokens = lex("a , ( b , c ) , , d".to_string());
    assert_eq!(count_arguments(&tokens), 4);
    let mut tokens = tokens;
    assert_eq!(take_argument(&mut tokens).len(), 1);
    assert_eq!(take_argument(&mut tokens).len(), 5);
    assert_eq!(take_argument(&mut tokens).len(), 0);
    assert_eq!(take_argument(&mut tokens).len(), 1);
    assert_eq!(tokens.len(), 0);
    assert_eq!(count_arguments(&lex("".to_string())), 0);
    assert_eq!(count_arguments(&lex("a ,".to_string())), 1);
    assert_eq!(count_arguments(&lex(", a".to_string())), 2);
}

#[test]
fn operators_bind_as_the_table_says() {
    assert_eq!(precedence_of(Operator::Mul), 3);
    assert_eq!(precedence_of(Operator::Div), 3);
    assert_eq!(precedence_of(Operator::Add), 2);
    assert_eq!(precedence_of(Operator::Sub), 2);
    assert_eq!(precedence_of(Operator::Eq), 1);
    assert_eq!(precedence_of(Operator::Neq), 1);
    assert_eq!(precedence_of(Operator::Gt), 1);
    assert_eq!(precedence_of(Operator::Gte), 1);
    assert_eq!(precedence_of(Operator::Lt), 1);
    assert_eq!(precedence_of(Operator::Lte), 1);
    assert_eq!(precedence_of(Operator::And), 0);
    assert_eq!(precedence_of(Operator::Or), 0);
}
