use lang_frontend::ast::expression::ArithmeticExpression;
use lang_frontend::ast::expression::ExpressionType;
use lang_frontend::ast::expression::VariableExpression;
use lang_frontend::ast::statement::CompoundStatement;
use lang_frontend::ast::statement::FunctionDeclareStatement;
use lang_frontend::ast::statement::FunctionDefineStatement;
use lang_frontend::ast::statement::FunctionReturnStatement;
use lang_frontend::ast::statement::StatementType;
use lang_frontend::data::ops::ArithmeticOperation;
use lang_frontend::data::vtype::VType;
use lang_frontend::parser::parse_root;

#[test]
fn function_define() {
    let source = "
			function square(x int) int
			{
				return x * x;
			}
		";

    let (root, errors) = parse_root(source.into());

    assert_eq!(errors.len(), 0);

    let statements = root.statements;
    let func_define_statement = &statements[0];

    assert_eq!(func_define_statement.stype(), StatementType::FunctionDefine);

    let func_define_statement = func_define_statement.as_statement::<FunctionDefineStatement>().unwrap();
    let func_sign = func_define_statement.signature();

    assert_eq!(func_sign.name(), "square");
    assert_eq!(func_sign.return_type(), VType::Integer);
}

#[test]
fn function_declare() {
    let source = "
			function square(x int) int;
		";

    let (root, errors) = parse_root(source.into());

    assert_eq!(errors.len(), 0);

    let statements = root.statements;
    let func_declare_statement = &statements[0];

    assert_eq!(func_declare_statement.stype(), StatementType::FunctionDeclare);

    let func_declare_statement = func_declare_statement.as_statement::<FunctionDeclareStatement>().unwrap();
    let func_sign = func_declare_statement.signature();

    assert_eq!(func_sign.name(), "square");
    assert_eq!(func_sign.return_type(), VType::Integer);
}

#[test]
fn global_state_err() {
    let source = "
			let x int = 10;
		";

    let (_, errors) = parse_root(source.into());

    assert_ne!(errors.len(), 0);
}

#[test]
fn function_define_builds_the_whole_tree() {
    let source = "function square(x int) int\n{\n    return x * x;\n}\n";
    let (root, errors) = parse_root(source.into());
    assert_eq!(errors.len(), 0);
    assert_eq!(root.statements.len(), 1);
    let define = root.statements[0].as_statement::<FunctionDefineStatement>().unwrap();
    let signature = define.signature();
    assert_eq!(signature.name(), "square");
    assert_eq!(signature.return_type(), VType::Integer);
    let parameters = signature.parameters();
    assert_eq!(parameters.len(), 1);
    assert_eq!(parameters[0].vtype(), VType::Integer);
    let p = parameters[0].id();
    let body = define.body().statements();
    assert_eq!(body.len(), 1);
    assert_eq!(body[0].stype(), StatementType::FunctionReturn);
    let ret = body[0].as_statement::<FunctionReturnStatement>().unwrap();
    let expression = ret.expression().unwrap();
    assert_eq!(expression.expression_type(), ExpressionType::Arithmetic);
    assert_eq!(expression.virtual_type(), VType::Integer);
    let product = expression.as_expression::<ArithmeticExpression>().unwrap();
    assert_eq!(product.op(), ArithmeticOperation::Multiply);
    let left = product.left();
    let right = product.right();
    assert_eq!(left.as_expression::<VariableExpression>().unwrap().identifier(), p);
    assert_eq!(right.as_expression::<VariableExpression>().unwrap().identifier(), p);
    assert!(root.statements[0].as_statement::<CompoundStatement>().is_none());
}
