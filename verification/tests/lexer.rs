use lang_frontend::data::ops::ArithmeticOperation;
use lang_frontend::data::ops::BooleanOperation;
use lang_frontend::data::ops::ComparisonOperation;
use lang_frontend::data::syms::Symbol;
use lang_frontend::data::vtype::VType;
use lang_frontend::parser::lexer::lex;
use lang_frontend::parser::token::ArithmeticToken;
use lang_frontend::parser::token::BooleanLiteralToken;
use lang_frontend::parser::token::BooleanToken;
use lang_frontend::parser::token::ComparisonToken;
use lang_frontend::parser::token::IdentifierToken;
use lang_frontend::parser::token::IntegerLiteralToken;
use lang_frontend::parser::token::SymbolToken;
use lang_frontend::parser::token::Token;
use lang_frontend::parser::token::TokenType;
use lang_frontend::parser::token::TypeToken;

fn span(t: &Token) -> (usize, usize, usize) {
    let i = t.info();
    (i.line, i.column_begin, i.column_end)
}

#[test]
fn lex_gives_spans_from_one() {
    let tokens = lex("let x int = 10;".to_string());
    assert_eq!(tokens.len(), 6);
    assert_eq!(tokens[0].get_type(), TokenType::Identifier);
    assert_eq!(tokens[0].as_token::<IdentifierToken>().unwrap().name(), "let");
    assert_eq!(span(&tokens[0]), (1, 1, 3));
    assert_eq!(span(&tokens[1]), (1, 5, 5));
    assert_eq!(tokens[2].as_token::<TypeToken>().unwrap().vtype(), VType::Integer);
    assert_eq!(span(&tokens[2]), (1, 7, 9));
    assert_eq!(tokens[3].as_token::<SymbolToken>().unwrap().sym(), Symbol::Equal);
    assert_eq!(span(&tokens[3]), (1, 11, 11));
    assert_eq!(tokens[4].as_token::<IntegerLiteralToken>().unwrap().value(), 10);
    assert_eq!(span(&tokens[4]), (1, 13, 14));
    assert_eq!(tokens[5].as_token::<SymbolToken>().unwrap().sym(), Symbol::Semicolon);
    assert_eq!(span(&tokens[5]), (1, 15, 15));
}

#[test]
fn lex_of_nothing_is_nothing() {
    assert_eq!(lex(String::new()).len(), 0);
    assert_eq!(lex(" \t\n \n".to_string()).len(), 0);
}

#[test]
fn line_feed_starts_a_line_and_tab_is_one_column() {
    let tokens = lex("a\n\tb\n\nc".to_string());
    assert_eq!(tokens.len(), 3);
    assert_eq!(span(&tokens[0]), (1, 1, 1));
    assert_eq!(span(&tokens[1]), (2, 2, 2));
    assert_eq!(span(&tokens[2]), (4, 1, 1));
}

#[test]
fn arithmetic_operators() {
    let tokens = lex("+-*/".to_string());
    let ops: Vec<ArithmeticOperation> =
        tokens.iter().map(|t| t.as_token::<ArithmeticToken>().unwrap().op()).collect();
    assert_eq!(
        ops,
        vec![
            ArithmeticOperation::Add,
            ArithmeticOperation::Subtract,
            ArithmeticOperation::Multiply,
            ArithmeticOperation::Divide
        ]
    );
    assert_eq!(span(&tokens[3]), (1, 4, 4));
}

#[test]
fn comparisons_and_their_single_characters() {
    let tokens = lex("== = != ! <= < >= >".to_string());
    assert_eq!(tokens.len(), 8);
    assert_eq!(tokens[0].as_token::<ComparisonToken>().unwrap().op(), ComparisonOperation::IsEqual);
    assert_eq!(span(&tokens[0]), (1, 1, 2));
    assert_eq!(tokens[1].as_token::<SymbolToken>().unwrap().sym(), Symbol::Equal);
    assert_eq!(span(&tokens[1]), (1, 4, 4));
    assert_eq!(tokens[2].as_token::<ComparisonToken>().unwrap().op(), ComparisonOperation::IsNotEqual);
    assert_eq!(tokens[3].as_token::<SymbolToken>().unwrap().sym(), Symbol::Bang);
    assert_eq!(tokens[4].as_token::<ComparisonToken>().unwrap().op(), ComparisonOperation::IsLessOrEqual);
    assert_eq!(tokens[5].as_token::<ComparisonToken>().unwrap().op(), ComparisonOperation::IsLess);
    assert_eq!(tokens[6].as_token::<ComparisonToken>().unwrap().op(), ComparisonOperation::IsGreaterOrEqual);
    assert_eq!(span(&tokens[6]), (1, 16, 17));
    assert_eq!(tokens[7].as_token::<ComparisonToken>().unwrap().op(), ComparisonOperation::IsGreater);
    assert_eq!(span(&tokens[7]), (1, 19, 19));
}

#[test]
fn three_equals_are_a_comparison_and_a_symbol() {
    let tokens = lex("===".to_string());
    assert_eq!(tokens.len(), 2);
    assert_eq!(tokens[0].get_type(), TokenType::Comparison);
    assert_eq!(tokens[1].get_type(), TokenType::Symbol);
    assert_eq!(span(&tokens[1]), (1, 3, 3));
}

#[test]
fn punctuation() {
    let tokens = lex("(){};,".to_string());
    let syms: Vec<Symbol> = tokens.iter().map(|t| t.as_token::<SymbolToken>().unwrap().sym()).collect();
    assert_eq!(
        syms,
        vec![
            Symbol::LeftParen,
            Symbol::RightParen,
            Symbol::LeftBrace,
            Symbol::RightBrace,
            Symbol::Semicolon,
            Symbol::Comma
        ]
    );
}

#[test]
fn words_that_are_not_identifiers() {
    let tokens = lex("true false void int bool and or".to_string());
    assert_eq!(tokens.len(), 7);
    assert_eq!(tokens[0].as_token::<BooleanLiteralToken>().unwrap().value(), true);
    assert_eq!(tokens[1].as_token::<BooleanLiteralToken>().unwrap().value(), false);
    assert_eq!(tokens[2].as_token::<TypeToken>().unwrap().vtype(), VType::Void);
    assert_eq!(tokens[3].as_token::<TypeToken>().unwrap().vtype(), VType::Integer);
    assert_eq!(tokens[4].as_token::<TypeToken>().unwrap().vtype(), VType::Boolean);
    assert_eq!(tokens[5].as_token::<BooleanToken>().unwrap().op(), BooleanOperation::And);
    assert_eq!(tokens[6].as_token::<BooleanToken>().unwrap().op(), BooleanOperation::Or);
    assert_eq!(tokens[5].get_type(), TokenType::Boolean);
    assert_eq!(tokens[0].get_type(), TokenType::BooleanLiteral);
    assert_eq!(tokens[2].get_type(), TokenType::Type);
}

#[test]
fn statement_keywords_are_plain_identifiers() {
    let tokens = lex("function return let set print express invoke".to_string());
    assert_eq!(tokens.len(), 7);
    for t in tokens.iter() {
        assert_eq!(t.get_type(), TokenType::Identifier);
    }
    assert_eq!(tokens[6].as_token::<IdentifierToken>().unwrap().name(), "invoke");
    assert!(tokens[6].as_token::<TypeToken>().is_none());
}

#[test]
fn identifiers_take_letters_digits_and_underscores() {
    let tokens = lex("_a1 b_2c truely int1".to_string());
    assert_eq!(tokens.len(), 4);
    assert_eq!(tokens[0].as_token::<IdentifierToken>().unwrap().name(), "_a1");
    assert_eq!(tokens[1].as_token::<IdentifierToken>().unwrap().name(), "b_2c");
    assert_eq!(tokens[2].as_token::<IdentifierToken>().unwrap().name(), "truely");
    assert_eq!(tokens[3].as_token::<IdentifierToken>().unwrap().name(), "int1");
    assert_eq!(span(&tokens[1]), (1, 5, 8));
}

#[test]
fn digits_before_letters_are_two_tokens() {
    let tokens = lex("12ab".to_string());
    assert_eq!(tokens.len(), 2);
    assert_eq!(tokens[0].as_token::<IntegerLiteralToken>().unwrap().value(), 12);
    assert_eq!(tokens[1].as_token::<IdentifierToken>().unwrap().name(), "ab");
    assert_eq!(span(&tokens[1]), (1, 3, 4));
}

#[test]
fn the_largest_integer_is_a_token() {
    let tokens = lex("2147483647 0 007".to_string());
    assert_eq!(tokens.len(), 3);
    assert_eq!(tokens[0].as_token::<IntegerLiteralToken>().unwrap().value(), 2147483647);
    assert_eq!(tokens[1].as_token::<IntegerLiteralToken>().unwrap().value(), 0);
    assert_eq!(tokens[2].as_token::<IntegerLiteralToken>().unwrap().value(), 7);
    assert_eq!(span(&tokens[2]), (1, 14, 16));
}

#[test]
fn an_integer_that_overflows_is_dropped_and_keeps_its_columns() {
    let tokens = lex("2147483648 x 99999999999999999999999 y".to_string());
    assert_eq!(tokens.len(), 2);
    assert_eq!(tokens[0].as_token::<IdentifierToken>().unwrap().name(), "x");
    assert_eq!(span(&tokens[0]), (1, 12, 12));
    assert_eq!(span(&tokens[1]), (1, 38, 38));
}

#[test]
fn an_unknown_character_is_passed_over_and_takes_no_column() {
    let tokens = lex("a $b #\u{e9} c".to_string());
    assert_eq!(tokens.len(), 3);
    assert_eq!(span(&tokens[0]), (1, 1, 1));
    assert_eq!(span(&tokens[1]), (1, 3, 3));
    assert_eq!(span(&tokens[2]), (1, 6, 6));
}

#[test]
fn tokens_begin_one_before_the_next() {
    let tokens = lex("function f(a int) int {\n  return a<=1 and true;\n}\n".to_string());
    assert_eq!(tokens.len(), 16);
    for i in 1..tokens.len() {
        let a = tokens[i - 1].info();
        let b = tokens[i].info();
        assert!(a.line < b.line || (a.line == b.line && a.column_begin < b.column_begin));
        assert!(b.line >= 1 && b.column_begin >= 1 && b.column_begin <= b.column_end);
    }
}
