use lang_frontend::parser::parse_root;
use lang_frontend::parser::source_line;
use lang_frontend::parser::ParserError;

fn errors_of(source: &str) -> Vec<ParserError> {
    parse_root(source.to_string()).1
}

fn messages_of(source: &str) -> Vec<String> {
    errors_of(source).iter().map(|e| e.message.clone()).collect()
}

fn in_body(statements: &str) -> Vec<String> {
    let source = format!("function f(a int, b int) int;\nfunction g() void {{ {} }}", statements);
    messages_of(&source)
}

fn first_in_body(statements: &str) -> String {
    in_body(statements)[0].clone()
}

#[test]
fn an_operator_without_operands_misses_its_right_one() {
    assert_eq!(in_body("print +;"), vec!["Missing RHS expression", "no expression parsed for `print` statement"]);
}

#[test]
fn an_operator_with_one_operand_misses_its_left_one() {
    assert_eq!(first_in_body("print 1 +;"), "Missing LHS expression");
    assert_eq!(first_in_body("print 1 + * 2;"), "Missing LHS expression");
}

#[test]
fn operands_without_operators_are_left_over() {
    assert_eq!(
        first_in_body("print 1 2;"),
        "shunting yard algorithm failed, stack expected to finish with one expression, got 2"
    );
    assert_eq!(
        first_in_body("print 1 2 3 4 5 6 7 8 9 10 11 12;"),
        "shunting yard algorithm failed, stack expected to finish with one expression, got 12"
    );
}

#[test]
fn parentheses_must_match() {
    assert_eq!(first_in_body("print (1;"), "no close parenthesis found for expression");
    assert_eq!(first_in_body("print 1);"), "expected a matched right parenthesis");
    assert_eq!(in_body("print ();"), vec!["no inner expression parsed", "no expression parsed for `print` statement"]);
    assert_eq!(
        in_body("print (a);"),
        vec![
            "identifier `a` not declared in the current scope",
            "no inner expression parsed",
            "no expression parsed for `print` statement"
        ]
    );
}

#[test]
fn a_symbol_is_no_operand() {
    assert_eq!(
        first_in_body("print =;"),
        "expected symbol `LeftParen` at beginsing of expression, got `Equal`"
    );
    assert_eq!(first_in_body("print 1 , 2;"), "expected symbol `LeftParen` at beginsing of expression, got `Comma`");
    assert_eq!(first_in_body("print !;"), "expected symbol `LeftParen` at beginsing of expression, got `Bang`");
}

#[test]
fn a_type_is_no_operand() {
    assert_eq!(first_in_body("print int;"), "unexpected token `Type` in expression");
}

#[test]
fn a_call_needs_a_name() {
    assert_eq!(first_in_body("print invoke;"), "tokens should not end here, expected an identifier token");
    assert_eq!(first_in_body("print invoke 1;"), "expected identifier token after `invoke`");
    assert_eq!(first_in_body("print invoke h();"), "function `h` not declared in the current module");
}

#[test]
fn a_call_needs_its_parentheses() {
    assert_eq!(first_in_body("print invoke f;"), "tokens should not end here, expected a symbol token");
    assert_eq!(first_in_body("print invoke f 1;"), "expected a symbol token to begin param list");
    assert_eq!(
        first_in_body("print invoke f );"),
        "expected symbol `LeftParen` to begin param list, got `RightParen`"
    );
    assert_eq!(first_in_body("print invoke f(1, 2;"), "no close function param list");
}

#[test]
fn a_call_needs_as_many_arguments_as_parameters() {
    assert_eq!(first_in_body("print invoke f();"), "mismatched argument length, expected 2, got 0");
    assert_eq!(first_in_body("print invoke f(1, 2, 3);"), "mismatched argument length, expected 2, got 3");
    assert_eq!(in_body("print invoke f(1, 2,);").len(), 0);
    assert_eq!(first_in_body("print invoke g(1);"), "mismatched argument length, expected 0, got 1");
}

#[test]
fn an_argument_must_be_an_expression() {
    assert_eq!(
        in_body("print invoke f(1, +);"),
        vec![
            "Missing RHS expression",
            "no expression parsed for argument",
            "no expression parsed for `print` statement"
        ]
    );
    let errors = errors_of("function f(a int, b int) int;\nfunction g() void { print invoke f(, 1); }");
    assert_eq!(errors[0].message, "no expression parsed for argument");
    assert_eq!((errors[0].line, errors[0].column_begin, errors[0].column_end), (2, 35, 35));
}

#[test]
fn a_name_must_be_bound() {
    let errors = errors_of("function g() void {\n  express z + 1;\n}");
    assert_eq!(errors[0].message, "identifier `z` not declared in the current scope");
    assert_eq!((errors[0].line, errors[0].column_begin, errors[0].column_end), (2, 11, 11));
    assert_eq!(errors[0].context_line, "  express z + 1;");
    assert_eq!(errors[1].message, "no expression parsed for `express` statement");
    assert_eq!((errors[1].line, errors[1].column_begin, errors[1].column_end), (2, 3, 9));
}

#[test]
fn a_statement_begins_with_a_brace_or_a_word() {
    assert_eq!(
        messages_of(";"),
        vec!["expected symbol `LeftBrace` when beginning a statement, got `Semicolon`"]
    );
    assert_eq!(messages_of("}"), vec!["expected symbol `LeftBrace` when beginning a statement, got `RightBrace`"]);
    assert_eq!(messages_of("12;"), vec!["unexpected token `IntegerLiteral` when beginning a statement"]);
    assert_eq!(messages_of("true;"), vec!["unexpected token `BooleanLiteral` when beginning a statement"]);
    assert_eq!(messages_of("int;"), vec!["unexpected token `Type` when beginning a statement"]);
    assert_eq!(messages_of("+;"), vec!["unexpected token `Arithmetic` when beginning a statement"]);
    assert_eq!(messages_of("<;"), vec!["unexpected token `Comparison` when beginning a statement"]);
    assert_eq!(messages_of("and;"), vec!["unexpected token `Boolean` when beginning a statement"]);
    assert_eq!(messages_of("foo;"), vec!["unexpected identifier `foo` when beginning a statement"]);
}

#[test]
fn braces_must_match() {
    assert_eq!(messages_of("{ { }"), vec!["no close braces found for compound statement"]);
    let (root, errors) = parse_root("function g() void { print 1;".to_string());
    assert_eq!(root.statements.len(), 0);
    assert_eq!(errors.len(), 1);
    assert_eq!(errors[0].message, "no close braces found for compound statement");
    assert_eq!((errors[0].line, errors[0].column_begin), (1, 19));
}

#[test]
fn keywords_have_their_places() {
    assert_eq!(messages_of("return 1;"), vec!["`return` statement is not allowed here"]);
    assert_eq!(messages_of("let x int = 1;"), vec!["`let` statement is not allowed here"]);
    assert_eq!(messages_of("set x = 1;"), vec!["`set` statement is not allowed here"]);
    assert_eq!(messages_of("print 1;"), vec!["`print` statement is not allowed here"]);
    assert_eq!(messages_of("express 1;"), vec!["`express` statement is not allowed here"]);
    assert_eq!(first_in_body("function h() int;"), "function declaration or definition is not allowed here");
}

#[test]
fn a_function_needs_a_name_and_a_list() {
    assert_eq!(messages_of("function"), vec!["tokens should not end here, expected an identifier token"]);
    assert_eq!(messages_of("function 1;"), vec!["expected identifier token after `function`"]);
    assert_eq!(messages_of("function f"), vec!["tokens should not end here, expected a symbol token"]);
    assert_eq!(messages_of("function f 1;"), vec!["expected a symbol token after function identifier in signature"]);
    assert_eq!(
        messages_of("function f;"),
        vec!["expected symbol `LeftParen` to begin parameter list in function signature, got `Semicolon`"]
    );
}

#[test]
fn parameters_are_names_with_types() {
    assert_eq!(messages_of("function f(1) int;"), vec!["expected identifier token"]);
    assert_eq!(messages_of("function f(a) int;"), vec!["tokens should not end here, expected a type token"]);
    assert_eq!(messages_of("function f(a b) int;"), vec!["expected type token after param identifier `a`"]);
    assert_eq!(
        messages_of("function f(a int b int) int;"),
        vec!["expected symbol token after param type, got `Identifier`"]
    );
    assert_eq!(
        messages_of("function f(a int = b int) int;"),
        vec!["expected symbol `Comma` to end param entry, got `Equal`"]
    );
}

#[test]
fn a_comma_behind_the_last_parameter_is_an_error() {
    let (root, errors) = parse_root("function f(a int,) int;\nfunction g() int;".to_string());
    assert_eq!(errors.len(), 1);
    assert_eq!(errors[0].message, "tokens should not end here, expected an identifier token");
    assert_eq!((errors[0].line, errors[0].column_begin), (1, 17));
    assert_eq!(root.statements.len(), 1);
}

#[test]
fn a_function_needs_a_return_type_and_an_end() {
    assert_eq!(messages_of("function f()"), vec!["tokens should not end here, expected a type token"]);
    assert_eq!(
        messages_of("function f() 1;"),
        vec!["expected type token to end function signature with identifier `f`"]
    );
    assert_eq!(messages_of("function f() int"), vec!["tokens should not end here, expected a symbol token"]);
    assert_eq!(messages_of("function f() int 5;"), vec!["expected a symbol token after function signature"]);
    assert_eq!(
        messages_of("function f() int =;"),
        vec!["expected symbol `Semicolon` or `LeftBrace` after function signature, got `Equal`"]
    );
}

#[test]
fn a_second_function_of_a_name_ends_the_parse() {
    let (root, errors) = parse_root("function f() int;\nfunction f() bool;\nfunction g() int;".to_string());
    assert_eq!(errors.len(), 1);
    assert_eq!(errors[0].message, "Function f already defined");
    assert_eq!((errors[0].line, errors[0].column_begin, errors[0].column_end), (2, 10, 10));
    assert_eq!(errors[0].context_line, "function f() bool;");
    assert_eq!(root.statements.len(), 1);
}

#[test]
fn a_failed_function_leaves_no_trace() {
    let (root, errors) = parse_root(
        "function f(a int) int 5;\nfunction g() int { return invoke f(1); }\nfunction f(a int) int;".to_string(),
    );
    assert_eq!(errors[0].message, "expected a symbol token after function signature");
    assert_eq!(errors[1].message, "function `f` not declared in the current module");
    assert_eq!(root.statements.len(), 2);
    let (root, errors) = parse_root("function f(a int, b) int; { let x int = a; }".to_string());
    assert_eq!(errors[0].message, "tokens should not end here, expected a type token");
    assert_eq!(errors[1].message, "identifier `a` not declared in the current scope");
    assert_eq!(root.statements.len(), 1);
}

#[test]
fn let_needs_a_name_a_type_and_a_value() {
    assert_eq!(messages_of("{ let }"), vec!["tokens should not end here, expected an identifier token"]);
    assert_eq!(first_in_body("let 1;"), "expected identifier token after `let`");
    assert_eq!(messages_of("{ let x }"), vec!["tokens should not end here, expected a type token"]);
    assert_eq!(first_in_body("let x = 1;"), "expected a type token after identifier `x`");
    assert_eq!(first_in_body("let x void = 1;"), "variable `x` has incomplete type `void`");
    assert_eq!(messages_of("{ let x int }"), vec!["tokens should not end here, expected '=' after type token"]);
    assert_eq!(first_in_body("let x int 5;"), "expected symbol `=` after type");
    assert_eq!(
        first_in_body("let x int;"),
        "expected symbol `Equal` after type in `let` statement, got `Semicolon`"
    );
    assert_eq!(in_body("let x int = ;"), vec!["no expression parsed for `let` statement"]);
}

#[test]
fn let_does_not_see_its_own_name() {
    assert_eq!(first_in_body("let x int = x;"), "identifier `x` not declared in the current scope");
}

#[test]
fn set_needs_a_bound_name_and_a_value() {
    assert_eq!(messages_of("{ set }"), vec!["tokens should not end here, expected an identifier token"]);
    assert_eq!(first_in_body("set 1 = 2;"), "expected identifier token after `set`");
    assert_eq!(first_in_body("set x = 1;"), "identifier `x` not declared in the current scope.");
    assert_eq!(
        messages_of("{ let x int = 1; set x }"),
        vec!["tokens should not end here, expected '=' after identifier token"]
    );
    assert_eq!(first_in_body("let x int = 1; set x 2;"), "expected symbol `=` after identifier");
    assert_eq!(
        first_in_body("let x int = 1; set x ( 2;"),
        "expected symbol `Equal` after identifier in `set` statement, got `LeftParen`"
    );
    assert_eq!(in_body("let x int = 1; set x = ;"), vec!["no expression parsed for `set` statement"]);
    assert_eq!(in_body("let x int = 1; set x = x + 1;").len(), 0);
}

#[test]
fn statements_need_their_expressions() {
    assert_eq!(in_body("print ;"), vec!["no expression parsed for `print` statement"]);
    assert_eq!(in_body("express ;"), vec!["no expression parsed for `express` statement"]);
    assert_eq!(in_body("return ;").len(), 0);
    assert_eq!(
        in_body("return );"),
        vec!["expected a matched right parenthesis", "no expression parsed for `return` statement"]
    );
}

#[test]
fn recovery_drops_up_to_the_next_stop() {
    let (root, errors) = parse_root("foo bar; function f() int;".to_string());
    assert_eq!(errors.len(), 1);
    assert_eq!(root.statements.len(), 1);
    let (root, errors) = parse_root("foo bar } function f() int;".to_string());
    assert_eq!(errors.len(), 1);
    assert_eq!(root.statements.len(), 1);
    let (root, errors) = parse_root("foo bar function f() int;".to_string());
    assert_eq!(errors.len(), 1);
    assert_eq!(root.statements.len(), 0);
}

#[test]
fn a_bad_expression_takes_the_next_statement_with_it() {
    let (root, errors) = parse_root("function g() void { print z; print 1; print 2; }".to_string());
    assert_eq!(errors.len(), 2);
    let g = root.statements[0]
        .as_statement::<lang_frontend::ast::statement::FunctionDefineStatement>()
        .unwrap();
    assert_eq!(g.body().statements().len(), 1);
}

#[test]
fn ids_run_out() {
    let mut source = String::from("function g() void {\n");
    for _ in 0..656 {
        source.push('{');
        for _ in 0..100 {
            source.push_str("let a int = 1;");
        }
        source.push_str("}\n");
    }
    source.push('}');
    let (root, errors) = parse_root(source);
    assert_eq!(root.statements.len(), 1);
    assert_eq!(errors.len(), 33);
    assert_eq!(errors[0].message, "identifier `a` cannot be declared, no id is left");
    assert_eq!(errors[0].line, 657);
    assert_eq!(errors[0].column_begin, 14 * 35 + 6);
}

#[test]
fn the_context_line_is_the_line_of_the_span() {
    assert_eq!(source_line("one\ntwo\n\nfour", 1), "one");
    assert_eq!(source_line("one\ntwo\n\nfour", 2), "two");
    assert_eq!(source_line("one\ntwo\n\nfour", 3), "");
    assert_eq!(source_line("one\ntwo\n\nfour", 4), "four");
    assert_eq!(source_line("one\ntwo\n\nfour", 5), "");
    assert_eq!(source_line("one\ntwo\n\nfour", 0), "");
    assert_eq!(source_line("one\n", 2), "");
    assert_eq!(source_line("", 1), "");
    assert_eq!(source_line("a\r\nb", 1), "a\r");
}

#[test]
fn every_span_is_in_order() {
    let errors = errors_of("foo;\n  ) x;\nfunction f( 1 ) int;\n{ print (1 + ; }\n{ set y = 1; }");
    assert_eq!(errors.len(), 6);
    for e in errors.iter() {
        assert!(e.line >= 1);
        assert!(e.column_begin >= 1);
        assert!(e.column_begin <= e.column_end);
    }
}
