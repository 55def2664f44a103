use lang_frontend::ast::expression::ArithmeticExpression;
use lang_frontend::ast::expression::BooleanExpression;
use lang_frontend::ast::expression::ComparisonExpression;
use lang_frontend::ast::expression::Expression;
use lang_frontend::ast::expression::ExpressionType;
use lang_frontend::ast::expression::FunctionCallExpression;
use lang_frontend::ast::expression::VariableExpression;
use lang_frontend::ast::statement::AssignStatement;
use lang_frontend::ast::statement::CompoundStatement;
use lang_frontend::ast::statement::DeclareStatement;
use lang_frontend::ast::statement::ExpressionStatement;
use lang_frontend::ast::statement::FunctionDeclareStatement;
use lang_frontend::ast::statement::FunctionDefineStatement;
use lang_frontend::ast::statement::FunctionReturnStatement;
use lang_frontend::ast::statement::PrintStatement;
use lang_frontend::ast::statement::Statement;
use lang_frontend::ast::statement::StatementType;
use lang_frontend::data::ops::ArithmeticOperation;
use lang_frontend::data::vtype::VType;
use lang_frontend::parser::lexer::lex;
use lang_frontend::parser::parse_root;
use std::collections::VecDeque;

const PROGRAM: &str = "
function max(a int, b int) int;
function twice(x int) int { return x * 2; }
function max(a int, b int) int
function main(flag bool) void
{
    let n int = invoke twice(invoke max(1, 2)) + 3 * 4 - 5;
    let ok bool = n >= 10 and flag or n == 0;
    {
        let n bool = ok;
        set n = false;
        print n;
    }
    let m void = 1;
    set n = n / 2;
    express invoke main(ok);
    print q;
    return;
}
{ let top int = 1; print top; }
";

fn precedence(e: &Expression) -> Option<u8> {
    match e.expression_type() {
        ExpressionType::Arithmetic => {
            let op = e.as_expression::<ArithmeticExpression>().unwrap().op();
            Some(if op == ArithmeticOperation::Multiply || op == ArithmeticOperation::Divide { 3 } else { 2 })
        }
        ExpressionType::Comparison => Some(1),
        ExpressionType::Boolean => Some(0),
        _ => None,
    }
}

fn operands(e: &Expression) -> Option<(Expression, Expression)> {
    match e.expression_type() {
        ExpressionType::Arithmetic => {
            let n = e.as_expression::<ArithmeticExpression>().unwrap();
            Some((n.left(), n.right()))
        }
        ExpressionType::Comparison => {
            let n = e.as_expression::<ComparisonExpression>().unwrap();
            Some((n.left(), n.right()))
        }
        ExpressionType::Boolean => {
            let n = e.as_expression::<BooleanExpression>().unwrap();
            Some((n.left(), n.right()))
        }
        _ => None,
    }
}

fn check_expression(e: &Expression, declared: &Vec<u16>, functions: &Vec<(String, usize)>) {
    if let Some(v) = e.as_expression::<VariableExpression>() {
        assert!(declared.contains(&v.identifier()));
    }
    if let Some(c) = e.as_expression::<FunctionCallExpression>() {
        let args = c.passed_arguments();
        assert!(functions.contains(&(c.name(), args.len())));
        for a in args.iter() {
            check_expression(a, declared, functions);
        }
    }
    if let Some((left, right)) = operands(e) {
        let p = precedence(e).unwrap();
        if let Some(q) = precedence(&left) {
            assert!(q >= p);
        }
        if let Some(q) = precedence(&right) {
            assert!(q > p);
        }
        check_expression(&left, declared, functions);
        check_expression(&right, declared, functions);
    }
}

fn check_statements(ss: &VecDeque<Statement>, declared: &mut Vec<u16>, functions: &Vec<(String, usize)>) {
    for s in ss.iter() {
        match s.stype() {
            StatementType::Declare => {
                let d = s.as_statement::<DeclareStatement>().unwrap();
                assert_ne!(d.vtype(), VType::Void);
                check_expression(&d.expression(), declared, functions);
                assert!(!declared.contains(&d.identifier()));
                declared.push(d.identifier());
            }
            StatementType::Assign => {
                let a = s.as_statement::<AssignStatement>().unwrap();
                assert!(declared.contains(&a.identifier()));
                check_expression(&a.expression(), declared, functions);
            }
            StatementType::Print => {
                check_expression(&s.as_statement::<PrintStatement>().unwrap().expression(), declared, functions)
            }
            StatementType::Expression => {
                check_expression(&s.as_statement::<ExpressionStatement>().unwrap().expression(), declared, functions)
            }
            StatementType::FunctionReturn => {
                if let Some(e) = s.as_statement::<FunctionReturnStatement>().unwrap().expression() {
                    check_expression(&e, declared, functions);
                }
            }
            StatementType::Compound => {
                check_statements(&s.as_statement::<CompoundStatement>().unwrap().statements(), declared, functions)
            }
            StatementType::FunctionDefine => {
                let f = s.as_statement::<FunctionDefineStatement>().unwrap();
                let mut inside: Vec<u16> = f.signature().parameters().iter().map(|p| p.id()).collect();
                check_statements(&f.body().statements(), &mut inside, functions);
            }
            StatementType::FunctionDeclare => {}
        }
    }
}

#[test]
fn a_program_keeps_the_promises_of_the_parser() {
    let (root, errors) = parse_root(PROGRAM.to_string());
    let mut functions: Vec<(String, usize)> = Vec::new();
    for s in root.statements.iter() {
        let signature = match s.stype() {
            StatementType::FunctionDefine => Some(s.as_statement::<FunctionDefineStatement>().unwrap().signature()),
            StatementType::FunctionDeclare => Some(s.as_statement::<FunctionDeclareStatement>().unwrap().signature()),
            _ => None,
        };
        if let Some(signature) = signature {
            assert!(!functions.iter().any(|f| f.0 == signature.name()));
            functions.push((signature.name(), signature.arity()));
        }
    }
    assert_eq!(functions, vec![("max".to_string(), 2), ("twice".to_string(), 1)]);
    for s in root.statements.iter() {
        let mut one = VecDeque::new();
        one.push_back(s.clone());
        check_statements(&one, &mut Vec::new(), &functions);
    }
    assert_eq!(root.statements.len(), 2);
    assert_eq!(errors.len(), 1);
    assert_eq!(errors[0].message, "Function max already defined");
    for e in errors.iter() {
        assert!(e.line >= 1 && e.column_begin <= e.column_end);
    }
}

#[test]
fn a_body_keeps_the_promises_of_the_parser() {
    let source = PROGRAM.replace("function max(a int, b int) int\n", "");
    let (root, errors) = parse_root(source.clone());
    assert_eq!(root.statements.len(), 4);
    let messages: Vec<String> = errors.iter().map(|e| e.message.clone()).collect();
    assert_eq!(
        messages,
        vec![
            "variable `m` has incomplete type `void`",
            "identifier `q` not declared in the current scope",
            "no expression parsed for `print` statement"
        ]
    );
    let functions = vec![("max".to_string(), 2), ("twice".to_string(), 1), ("main".to_string(), 1)];
    for s in root.statements.iter() {
        let mut one = VecDeque::new();
        one.push_back(s.clone());
        check_statements(&one, &mut Vec::new(), &functions);
    }
    let main = root.statements[2].as_statement::<FunctionDefineStatement>().unwrap();
    let body = main.body().statements();
    let kinds: Vec<StatementType> = body.iter().map(|s| s.stype()).collect();
    assert_eq!(
        kinds,
        vec![
            StatementType::Declare,
            StatementType::Declare,
            StatementType::Compound,
            StatementType::Assign,
            StatementType::Expression
        ]
    );
    let tokens = lex(source);
    for e in errors.iter() {
        assert!(tokens.iter().any(|t| {
            let i = t.info();
            i.line == e.line && i.column_begin == e.column_begin && i.column_end == e.column_end
        }));
    }
    assert!(errors[0].line < errors[1].line);
}

#[test]
fn grouping_goes_before_precedence() {
    let (root, errors) = parse_root("function f() int { return (1 + 2) * 3; }".to_string());
    assert_eq!(errors.len(), 0);
    let f = root.statements[0].as_statement::<FunctionDefineStatement>().unwrap();
    let ret = f.body().statements()[0].as_statement::<FunctionReturnStatement>().unwrap().expression().unwrap();
    let product = ret.as_expression::<ArithmeticExpression>().unwrap();
    assert_eq!(product.op(), ArithmeticOperation::Multiply);
    let sum = product.left();
    assert_eq!(sum.as_expression::<ArithmeticExpression>().unwrap().op(), ArithmeticOperation::Add);
}

#[test]
fn operators_of_one_precedence_group_to_the_left() {
    let (root, errors) = parse_root("function f() int { return 8 / 4 / 2; }".to_string());
    assert_eq!(errors.len(), 0);
    let f = root.statements[0].as_statement::<FunctionDefineStatement>().unwrap();
    let ret = f.body().statements()[0].as_statement::<FunctionReturnStatement>().unwrap().expression().unwrap();
    let outer = ret.as_expression::<ArithmeticExpression>().unwrap();
    assert_eq!(outer.right().expression_type(), ExpressionType::Literal);
    assert_eq!(outer.left().expression_type(), ExpressionType::Arithmetic);
}
