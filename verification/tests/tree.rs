use lang_frontend::ast::expression::ArithmeticExpression;
use lang_frontend::ast::expression::BooleanExpression;
use lang_frontend::ast::expression::ComparisonExpression;
use lang_frontend::ast::expression::Expression;
use lang_frontend::ast::expression::ExpressionTrait;
use lang_frontend::ast::expression::ExpressionType;
use lang_frontend::ast::expression::FunctionCallExpression;
use lang_frontend::ast::expression::LiteralExpression;
use lang_frontend::ast::expression::VariableExpression;
use lang_frontend::ast::literal::BooleanLiteral;
use lang_frontend::ast::literal::IntegerLiteral;
use lang_frontend::ast::literal::Literal;
use lang_frontend::ast::literal::LiteralTrait;
use lang_frontend::ast::root::Root;
use lang_frontend::ast::statement::AssignStatement;
use lang_frontend::ast::statement::CompoundStatement;
use lang_frontend::ast::statement::DeclareStatement;
use lang_frontend::ast::statement::ExpressionStatement;
use lang_frontend::ast::statement::FunctionDeclareStatement;
use lang_frontend::ast::statement::FunctionDefineStatement;
use lang_frontend::ast::statement::FunctionReturnStatement;
use lang_frontend::ast::statement::PrintStatement;
use lang_frontend::ast::statement::Statement;
use lang_frontend::ast::statement::StatementTrait;
use lang_frontend::ast::statement::StatementType;
use lang_frontend::data::ops::ArithmeticOperation;
use lang_frontend::data::ops::BooleanOperation;
use lang_frontend::data::ops::ComparisonOperation;
use lang_frontend::data::syms::Symbol;
use lang_frontend::data::text::concat3;
use lang_frontend::data::text::concat5;
use lang_frontend::data::text::decimal_text;
use lang_frontend::data::vtype::FunctionSignature;
use lang_frontend::data::vtype::Parameter;
use lang_frontend::data::vtype::VType;
use lang_frontend::parser::token::IdentifierToken;
use lang_frontend::parser::token::IntegerLiteralToken;
use lang_frontend::parser::token::Token;
use lang_frontend::parser::token::TokenInfo;
use lang_frontend::parser::token::TokenTrait;
use lang_frontend::parser::token::TokenType;
use std::collections::VecDeque;

fn info(column: usize) -> TokenInfo {
    TokenInfo { line: 1, column_begin: column, column_end: column }
}

fn one_token(column: usize) -> VecDeque<Token> {
    let mut tokens = VecDeque::new();
    tokens.push_back(Token::new_integer_literal(info(column), 5));
    tokens
}

fn five() -> Expression {
    Expression::new_literal(one_token(1), Literal::new_integer(5))
}

fn yes() -> Expression {
    Expression::new_literal(VecDeque::new(), Literal::new_boolean(true))
}

#[test]
fn literals_have_their_types() {
    let i = Literal::new_integer(-3);
    let b = Literal::new_boolean(false);
    assert_eq!(i.virtual_type(), VType::Integer);
    assert_eq!(b.virtual_type(), VType::Boolean);
    assert_eq!(i.as_literal::<IntegerLiteral>().unwrap().value, -3);
    assert!(i.as_literal::<BooleanLiteral>().is_none());
    assert_eq!(b.as_literal::<BooleanLiteral>().unwrap().value, false);
    assert!(b.as_literal::<IntegerLiteral>().is_none());
    assert_eq!(IntegerLiteral::new(4).virtual_type(), VType::Integer);
    assert_eq!(BooleanLiteral::new(true).virtual_type(), VType::Boolean);
}

#[test]
fn tokens_keep_span_and_payload() {
    let t = Token::new_identifier(TokenInfo { line: 3, column_begin: 4, column_end: 8 }, "hello".to_string());
    assert_eq!(t.get_type(), TokenType::Identifier);
    assert_eq!(t.info(), TokenInfo { line: 3, column_begin: 4, column_end: 8 });
    let inner = t.as_token::<IdentifierToken>().unwrap();
    assert_eq!(inner.name(), "hello");
    assert_eq!(inner.info().column_end, 8);
    assert_eq!(inner.token_type(), TokenType::Identifier);
    assert!(t.as_token::<IntegerLiteralToken>().is_none());
    let c = t.clone();
    assert_eq!(c.as_token::<IdentifierToken>().unwrap().name(), "hello");
    assert!(Token::new_symbol(info(1), Symbol::Comma).is_symbol(Symbol::Comma));
    assert!(!Token::new_symbol(info(1), Symbol::Comma).is_symbol(Symbol::Bang));
    assert!(!t.is_symbol(Symbol::Comma));
    assert_eq!(Token::new_type(info(1), VType::Void).get_type(), TokenType::Type);
    assert_eq!(Token::new_arithmetic(info(1), ArithmeticOperation::Add).get_type(), TokenType::Arithmetic);
    assert_eq!(Token::new_comparison(info(1), ComparisonOperation::IsLess).get_type(), TokenType::Comparison);
    assert_eq!(Token::new_boolean(info(1), BooleanOperation::Or).get_type(), TokenType::Boolean);
    assert_eq!(Token::new_boolean_literal(info(1), true).get_type(), TokenType::BooleanLiteral);
}

#[test]
fn names_in_diagnostics() {
    assert_eq!(Symbol::LeftParen.name(), "LeftParen");
    assert_eq!(Symbol::RightBrace.name(), "RightBrace");
    assert_eq!(Symbol::Bang.name(), "Bang");
    assert_eq!(TokenType::IntegerLiteral.name(), "IntegerLiteral");
    assert_eq!(TokenType::Symbol.name(), "Symbol");
}

#[test]
fn numbers_in_decimal() {
    assert_eq!(decimal_text(0), "0");
    assert_eq!(decimal_text(7), "7");
    assert_eq!(decimal_text(10), "10");
    assert_eq!(decimal_text(1234567890), "1234567890");
    assert_eq!(decimal_text(usize::MAX), usize::MAX.to_string());
    assert_eq!(concat3("a", "", "c"), "ac");
    assert_eq!(concat5("a", "b", "c", "d", "e"), "abcde");
}

#[test]
fn expressions_keep_what_they_were_made_of() {
    let lit = five();
    assert_eq!(lit.expression_type(), ExpressionType::Literal);
    assert_eq!(lit.virtual_type(), VType::Integer);
    let l = lit.as_expression::<LiteralExpression>().unwrap();
    assert_eq!(l.literal().as_literal::<IntegerLiteral>().unwrap().value, 5);
    assert_eq!(l.unparse().len(), 1);
    assert_eq!(l.unparse()[0].info().column_begin, 1);
    assert!(lit.as_expression::<VariableExpression>().is_none());

    let var = Expression::new_variable(one_token(2), VType::Boolean, 9);
    assert_eq!(var.expression_type(), ExpressionType::Variable);
    assert_eq!(var.virtual_type(), VType::Boolean);
    let v = var.as_expression::<VariableExpression>().unwrap();
    assert_eq!(v.identifier(), 9);
    assert_eq!(v.vtype(), VType::Boolean);
    assert_eq!(v.etype(), ExpressionType::Variable);

    let mut args = VecDeque::new();
    args.push_back(five());
    args.push_back(var.clone());
    let call = Expression::new_function_call(VecDeque::new(), VType::Void, "f".to_string(), args);
    assert_eq!(call.virtual_type(), VType::Void);
    let c = call.as_expression::<FunctionCallExpression>().unwrap();
    assert_eq!(c.name(), "f");
    assert_eq!(c.passed_arguments().len(), 2);
    assert_eq!(c.passed_arguments()[1].expression_type(), ExpressionType::Variable);

    let sum = Expression::new_arithmetic(one_token(3), VType::Integer, ArithmeticOperation::Add, five(), var.clone());
    assert_eq!(sum.virtual_type(), VType::Integer);
    let s = sum.as_expression::<ArithmeticExpression>().unwrap();
    assert_eq!(s.op(), ArithmeticOperation::Add);
    assert_eq!(s.left().expression_type(), ExpressionType::Literal);
    assert_eq!(s.right().expression_type(), ExpressionType::Variable);
    assert_eq!(s.unparse()[0].info().column_begin, 3);

    let less = Expression::new_comparison(VecDeque::new(), ComparisonOperation::IsLess, five(), five());
    assert_eq!(less.virtual_type(), VType::Boolean);
    assert_eq!(less.expression_type(), ExpressionType::Comparison);
    let l = less.as_expression::<ComparisonExpression>().unwrap();
    assert_eq!(l.op(), ComparisonOperation::IsLess);
    assert_eq!(l.left().virtual_type(), VType::Integer);
    assert_eq!(l.right().virtual_type(), VType::Integer);

    let both = Expression::new_boolean(VecDeque::new(), BooleanOperation::And, yes(), less.clone());
    assert_eq!(both.virtual_type(), VType::Boolean);
    let b = both.as_expression::<BooleanExpression>().unwrap();
    assert_eq!(b.op(), BooleanOperation::And);
    assert_eq!(b.left().expression_type(), ExpressionType::Literal);
    assert_eq!(b.right().expression_type(), ExpressionType::Comparison);
    assert!(both.as_expression::<ArithmeticExpression>().is_none());
}

#[test]
fn statements_keep_what_they_were_made_of() {
    let declare = Statement::new_declare(one_token(1), VType::Integer, 4, five());
    assert_eq!(declare.stype(), StatementType::Declare);
    let d = declare.as_statement::<DeclareStatement>().unwrap();
    assert_eq!(d.vtype(), VType::Integer);
    assert_eq!(d.identifier(), 4);
    assert_eq!(d.expression().virtual_type(), VType::Integer);
    assert_eq!(d.unparse().len(), 1);
    assert!(declare.as_statement::<AssignStatement>().is_none());

    let assign = Statement::new_assign(VecDeque::new(), 4, yes());
    let a = assign.as_statement::<AssignStatement>().unwrap();
    assert_eq!(a.identifier(), 4);
    assert_eq!(a.expression().virtual_type(), VType::Boolean);
    assert_eq!(a.stype(), StatementType::Assign);

    let print = Statement::new_print(VecDeque::new(), five());
    assert_eq!(print.as_statement::<PrintStatement>().unwrap().expression().expression_type(), ExpressionType::Literal);
    let express = Statement::new_expression(VecDeque::new(), five());
    assert_eq!(express.stype(), StatementType::Expression);
    assert!(express.as_statement::<ExpressionStatement>().is_some());

    let empty_return = Statement::new_function_return(VecDeque::new(), None);
    assert!(empty_return.as_statement::<FunctionReturnStatement>().unwrap().expression().is_none());
    let full_return = Statement::new_function_return(VecDeque::new(), Some(five()));
    assert!(full_return.as_statement::<FunctionReturnStatement>().unwrap().expression().is_some());

    let mut inner = VecDeque::new();
    inner.push_back(declare.clone());
    inner.push_back(assign.clone());
    let compound = Statement::new_compound(one_token(7), inner);
    assert_eq!(compound.stype(), StatementType::Compound);
    let c = compound.as_statement::<CompoundStatement>().unwrap();
    assert_eq!(c.statements().len(), 2);
    assert_eq!(c.statements()[1].stype(), StatementType::Assign);

    let mut parameters = VecDeque::new();
    parameters.push_back(Parameter::new(1, VType::Integer));
    let signature = FunctionSignature::new("f".to_string(), VType::Void, parameters);
    let declaration = Statement::new_function_declare(VecDeque::new(), signature.clone());
    assert_eq!(declaration.as_statement::<FunctionDeclareStatement>().unwrap().signature().name(), "f");
    let definition = Statement::new_function_define(one_token(9), signature, c.clone());
    assert_eq!(definition.stype(), StatementType::FunctionDefine);
    let d = definition.as_statement::<FunctionDefineStatement>().unwrap();
    assert_eq!(d.signature().arity(), 1);
    assert_eq!(d.body().statements().len(), 2);
    assert_eq!(d.body().unparse()[0].info().column_begin, 7);
    assert_eq!(d.unparse()[0].info().column_begin, 9);
}

#[test]
fn the_root_keeps_its_statements_in_order() {
    let mut root = Root::new();
    assert_eq!(root.statements.len(), 0);
    root.add(Statement::new_print(VecDeque::new(), five()));
    root.add(Statement::new_expression(VecDeque::new(), five()));
    assert_eq!(root.statements.len(), 2);
    assert_eq!(root.statements[0].stype(), StatementType::Print);
    assert_eq!(root.statements[1].stype(), StatementType::Expression);
    let copy = root.clone();
    assert_eq!(copy.statements.len(), 2);
}
