use lang_frontend::ast::expression::ArithmeticExpression;
use lang_frontend::ast::expression::Expression;
use lang_frontend::ast::expression::ExpressionTrait;
use lang_frontend::ast::expression::ExpressionType;
use lang_frontend::ast::expression::FunctionCallExpression;
use lang_frontend::ast::expression::LiteralExpression;
use lang_frontend::ast::literal::IntegerLiteral;
use lang_frontend::ast::statement::DeclareStatement;
use lang_frontend::ast::statement::FunctionDeclareStatement;
use lang_frontend::ast::statement::FunctionDefineStatement;
use lang_frontend::ast::statement::FunctionReturnStatement;
use lang_frontend::ast::statement::Statement;
use lang_frontend::ast::statement::StatementTrait;
use lang_frontend::ast::statement::StatementType;
use lang_frontend::data::ops::ArithmeticOperation;
use lang_frontend::data::vtype::VType;
use lang_frontend::parser::parse_root;
use lang_frontend::parser::token::Token;
use std::collections::VecDeque;

fn body_of(source: &str) -> (VecDeque<Statement>, Vec<String>) {
    let (root, errors) = parse_root(source.to_string());
    let messages = errors.iter().map(|e| e.message.clone()).collect();
    if root.statements.len() == 0 {
        return (VecDeque::new(), messages);
    }
    let define = root.statements[0].as_statement::<FunctionDefineStatement>().unwrap();
    (define.body().statements(), messages)
}

fn integer(e: &Expression) -> i32 {
    let l = e.as_expression::<LiteralExpression>().unwrap();
    l.literal().as_literal::<IntegerLiteral>().unwrap().value
}

#[test]
fn forward_declaration_gives_one_declare() {
    let (root, errors) = parse_root("function square(x int) int;".to_string());
    assert_eq!(errors.len(), 0);
    assert_eq!(root.statements.len(), 1);
    assert_eq!(root.statements[0].stype(), StatementType::FunctionDeclare);
}

#[test]
fn let_at_top_level_is_rejected() {
    let (root, errors) = parse_root("\nlet x int = 10;".to_string());
    assert_eq!(root.statements.len(), 0);
    assert!(errors.len() >= 1);
    assert_eq!(errors[0].message, "`let` statement is not allowed here");
    assert_eq!(errors[0].line, 2);
    assert_eq!(errors[0].column_begin, 1);
    assert_eq!(errors[0].column_end, 3);
    assert_eq!(errors[0].context_line, "let x int = 10;");
}

#[test]
fn precedence_shapes_the_return_expression() {
    let (body, messages) = body_of("function f() int { return 1 + 2 * 3 - 4; }");
    assert_eq!(messages.len(), 0);
    assert_eq!(body.len(), 1);
    let ret = body[0].as_statement::<FunctionReturnStatement>().unwrap();
    let top = ret.expression().unwrap();
    let sub = top.as_expression::<ArithmeticExpression>().unwrap();
    assert_eq!(sub.op(), ArithmeticOperation::Subtract);
    assert_eq!(integer(&sub.right()), 4);
    let left = sub.left();
    let add = left.as_expression::<ArithmeticExpression>().unwrap();
    assert_eq!(add.op(), ArithmeticOperation::Add);
    assert_eq!(integer(&add.left()), 1);
    let right = add.right();
    let mul = right.as_expression::<ArithmeticExpression>().unwrap();
    assert_eq!(mul.op(), ArithmeticOperation::Multiply);
    assert_eq!(integer(&mul.left()), 2);
    assert_eq!(integer(&mul.right()), 3);
}

#[test]
fn arity_mismatch_is_reported() {
    let source = "function f(a int, b int) int;\nfunction g() int { return invoke f(1); }";
    let (root, errors) = parse_root(source.to_string());
    let mismatches: Vec<_> = errors
        .iter()
        .filter(|e| e.message == "mismatched argument length, expected 2, got 1")
        .collect();
    assert_eq!(mismatches.len(), 1);
    assert_eq!(errors[0].message, "mismatched argument length, expected 2, got 1");
    assert_eq!(errors[0].line, 2);
    assert_eq!(errors[0].column_begin, 35);
    assert_eq!(errors[0].column_end, 35);
    assert_eq!(root.statements.len(), 2);
    let g = root.statements[1].as_statement::<FunctionDefineStatement>().unwrap();
    assert_eq!(g.signature().name(), "g");
    assert_eq!(g.body().statements().len(), 0);
}

#[test]
fn unknown_identifier_is_reported() {
    let (body, messages) = body_of("function f() int { let y int = z; }");
    assert_eq!(messages[0], "identifier `z` not declared in the current scope");
    assert_eq!(messages[1], "no expression parsed for `let` statement");
    assert_eq!(body.len(), 0);
}

#[test]
fn a_failed_let_binds_nothing() {
    let (body, messages) = body_of("function f() int { let y int = z; ; print y; }");
    assert_eq!(body.len(), 0);
    assert!(messages.iter().any(|m| m == "identifier `y` not declared in the current scope"));
}

#[test]
fn calls_take_nested_calls_as_arguments() {
    let source = "function f(a int, b int) int;\nfunction g() int { return invoke f(invoke f(1, 2), 3); }";
    let (root, errors) = parse_root(source.to_string());
    assert_eq!(errors.len(), 0);
    let g = root.statements[1].as_statement::<FunctionDefineStatement>().unwrap();
    let body = g.body().statements();
    let ret = body[0].as_statement::<FunctionReturnStatement>().unwrap();
    let call = ret.expression().unwrap();
    assert_eq!(call.expression_type(), ExpressionType::FunctionCall);
    assert_eq!(call.virtual_type(), VType::Integer);
    let call = call.as_expression::<FunctionCallExpression>().unwrap();
    assert_eq!(call.name(), "f");
    let args = call.passed_arguments();
    assert_eq!(args.len(), 2);
    assert_eq!(args[0].expression_type(), ExpressionType::FunctionCall);
    assert_eq!(integer(&args[1]), 3);
}

#[test]
fn declarations_get_fresh_ids() {
    let (body, messages) = body_of("function f(a int) int { let x int = a; { let x bool = true; } let y int = x; }");
    assert_eq!(messages.len(), 0);
    assert_eq!(body.len(), 3);
    let x = body[0].as_statement::<DeclareStatement>().unwrap();
    let y = body[2].as_statement::<DeclareStatement>().unwrap();
    assert_eq!(x.vtype(), VType::Integer);
    assert_ne!(x.identifier(), y.identifier());
    assert_eq!(body[1].stype(), StatementType::Compound);
    let read = y.expression();
    assert_eq!(read.virtual_type(), VType::Integer);
}

fn columns(tokens: &VecDeque<Token>) -> Vec<usize> {
    tokens.iter().map(|t| t.info().column_begin).collect()
}

#[test]
fn statements_keep_the_tokens_read_for_them() {
    let (root, errors) = parse_root("function f(a int, b int) int;".to_string());
    assert_eq!(errors.len(), 0);
    let f = root.statements[0].as_statement::<FunctionDeclareStatement>().unwrap();
    assert_eq!(columns(&f.unparse()), vec![1, 10, 11, 12, 14, 17, 19, 21, 24, 14, 17, 21, 26, 29]);

    let (root, errors) = parse_root("function g() void { let x int = 1; return; }".to_string());
    assert_eq!(errors.len(), 0);
    let g = root.statements[0].as_statement::<FunctionDefineStatement>().unwrap();
    assert_eq!(columns(&g.unparse()), vec![1, 10, 11, 12, 14, 19]);
    let body = g.body();
    assert_eq!(columns(&body.unparse()), vec![19, 21, 25, 27, 31, 33, 34, 36, 42, 44]);
    let inner = body.statements();
    let declare = inner[0].as_statement::<DeclareStatement>().unwrap();
    assert_eq!(columns(&declare.unparse()), vec![21, 25, 27, 31, 33, 34]);
    let ret = inner[1].as_statement::<FunctionReturnStatement>().unwrap();
    assert_eq!(columns(&ret.unparse()), vec![36, 42]);
}

#[test]
fn nodes_keep_the_tokens_read_since_the_node_before() {
    let (body, messages) = body_of("function f(a int) int { return 1 + a * (2 - invoke f(3)); }");
    assert_eq!(messages.len(), 0);
    let ret = body[0].as_statement::<FunctionReturnStatement>().unwrap();
    let top = ret.expression().unwrap();
    let sum = top.as_expression::<ArithmeticExpression>().unwrap();
    assert_eq!(sum.op(), ArithmeticOperation::Add);
    assert_eq!(columns(&sum.unparse()), Vec::<usize>::new());
    let one = sum.left();
    assert_eq!(columns(&one.as_expression::<LiteralExpression>().unwrap().unparse()), vec![32]);
    let right = sum.right();
    let product = right.as_expression::<ArithmeticExpression>().unwrap();
    assert_eq!(product.op(), ArithmeticOperation::Multiply);
    assert_eq!(columns(&product.unparse()), vec![38, 40, 41, 43, 45, 52, 53, 54, 55, 56]);
    let difference = product.right();
    let difference = difference.as_expression::<ArithmeticExpression>().unwrap();
    assert_eq!(difference.op(), ArithmeticOperation::Subtract);
    assert_eq!(columns(&difference.unparse()), Vec::<usize>::new());
    let call = difference.right();
    let call = call.as_expression::<FunctionCallExpression>().unwrap();
    assert_eq!(columns(&call.unparse()), vec![43, 45, 52, 53, 54, 55, 54]);
}

#[test]
fn a_compound_statement_may_stand_at_the_top() {
    let (root, errors) = parse_root("{ let x int = 1; print x; }".to_string());
    assert_eq!(errors.len(), 0);
    assert_eq!(root.statements.len(), 1);
    assert_eq!(root.statements[0].stype(), StatementType::Compound);
}

#[test]
fn a_function_may_call_itself() {
    let (root, errors) = parse_root("function f(n int) int { return invoke f(n - 1); }".to_string());
    assert_eq!(errors.len(), 0);
    assert_eq!(root.statements.len(), 1);
}

#[test]
fn a_statement_without_its_semicolon_reads_to_the_end() {
    let (body, messages) = body_of("function f() int { return 1 }");
    assert_eq!(messages.len(), 0);
    assert_eq!(body.len(), 1);
}

#[test]
fn operands_need_no_infix_order() {
    let (body, messages) = body_of("function f() int { return + 1 2; }");
    assert_eq!(messages.len(), 0);
    let ret = body[0].as_statement::<FunctionReturnStatement>().unwrap();
    let sum = ret.expression().unwrap();
    let sum = sum.as_expression::<ArithmeticExpression>().unwrap();
    assert_eq!(integer(&sum.left()), 1);
    assert_eq!(integer(&sum.right()), 2);
}

#[test]
fn arithmetic_is_not_checked_against_the_types_of_its_operands() {
    let (body, messages) = body_of("function f() int { return 1 + true; }");
    assert_eq!(messages.len(), 0);
    let ret = body[0].as_statement::<FunctionReturnStatement>().unwrap();
    assert_eq!(ret.expression().unwrap().virtual_type(), VType::Integer);
}

#[test]
fn the_diagnostic_of_a_misplaced_let_points_at_let() {
    let source = "
			let x int = 10;
		";
    let (root, errors) = parse_root(source.to_string());
    assert_eq!(root.statements.len(), 0);
    assert_eq!(errors.len(), 1);
    assert_eq!(errors[0].message, "`let` statement is not allowed here");
    assert_eq!(errors[0].line, 2);
    assert_eq!(errors[0].column_begin, 4);
    assert_eq!(errors[0].column_end, 6);
    assert_eq!(errors[0].context_line, "\t\t\tlet x int = 10;");
}
