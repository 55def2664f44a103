//! The lexer: from source text to tokens with their spans.

use vstd::prelude::*;
use vstd::string::StringExecFns;
use std::collections::VecDeque;
use crate::data::ops::ArithmeticOperation;
use crate::data::ops::BooleanOperation;
use crate::data::ops::ComparisonOperation;
use crate::data::syms::Symbol;
use crate::data::text::chars_of;
use crate::data::text::text_of;
use crate::data::vtype::VType;
use crate::parser::spans::ascending;
use crate::parser::spans::lemma_scan_spans;
use crate::parser::spans::tokens_valid;
use crate::parser::token::Payload;
use crate::parser::token::Token;
use crate::parser::token::TokenInfo;
use crate::parser::token::TokenView;
use crate::parser::token::push_token;
use crate::parser::token::tokens_view;

verus! {

/// Whether `c` is a decimal digit.
pub open spec fn is_digit(c: char) -> bool {
    '0' <= c <= '9'
}

/// Whether a word may begin with `c`: a letter or an underscore.
pub open spec fn is_word_start(c: char) -> bool {
    'a' <= c <= 'z' || 'A' <= c <= 'Z' || c == '_'
}

/// Whether a word may go on with `c`: a letter, an underscore or a digit.
pub open spec fn is_word_part(c: char) -> bool {
    is_word_start(c) || is_digit(c)
}

/// Where the run of digits that starts at `i` ends.
pub open spec fn digits_end(s: Seq<char>, i: int) -> int
    decreases s.len() - i,
{
    if 0 <= i < s.len() && is_digit(s[i]) {
        digits_end(s, i + 1)
    } else {
        i
    }
}

/// Where the run of letters, digits and underscores that starts at `i` ends.
pub open spec fn word_end(s: Seq<char>, i: int) -> int
    decreases s.len() - i,
{
    if 0 <= i < s.len() && is_word_part(s[i]) {
        word_end(s, i + 1)
    } else {
        i
    }
}

/// The number that a run of digits writes in decimal notation.
pub open spec fn digits_value(digits: Seq<char>) -> nat
    decreases digits.len(),
{
    if digits.len() == 0 {
        0
    } else {
        (digits_value(digits.drop_last()) * 10 + (digits.last() as u32 - '0' as u32)) as nat
    }
}

/// What the word `word` stands for: a boolean literal, a type, a boolean
/// operator, or else an identifier.
pub open spec fn word_payload(word: Seq<char>) -> Payload {
    if word == "true"@ {
        Payload::BooleanLiteral(true)
    } else if word == "false"@ {
        Payload::BooleanLiteral(false)
    } else if word == "void"@ {
        Payload::Type(VType::Void)
    } else if word == "int"@ {
        Payload::Type(VType::Integer)
    } else if word == "bool"@ {
        Payload::Type(VType::Boolean)
    } else if word == "and"@ {
        Payload::Boolean(BooleanOperation::And)
    } else if word == "or"@ {
        Payload::Boolean(BooleanOperation::Or)
    } else {
        Payload::Identifier(word)
    }
}

/// The span of a token of `len` characters that starts at `column` of `line`.
pub open spec fn span(line: nat, column: nat, len: nat) -> TokenInfo {
    TokenInfo {
        line: line as usize,
        column_begin: column as usize,
        column_end: (column + len - 1) as usize,
    }
}

/// What a character that is a token by itself stands for.
pub open spec fn single_payload(c: char) -> Option<Payload> {
    if c == '+' {
        Some(Payload::Arithmetic(ArithmeticOperation::Add))
    } else if c == '-' {
        Some(Payload::Arithmetic(ArithmeticOperation::Subtract))
    } else if c == '*' {
        Some(Payload::Arithmetic(ArithmeticOperation::Multiply))
    } else if c == '/' {
        Some(Payload::Arithmetic(ArithmeticOperation::Divide))
    } else if c == '(' {
        Some(Payload::Symbol(Symbol::LeftParen))
    } else if c == ')' {
        Some(Payload::Symbol(Symbol::RightParen))
    } else if c == '{' {
        Some(Payload::Symbol(Symbol::LeftBrace))
    } else if c == '}' {
        Some(Payload::Symbol(Symbol::RightBrace))
    } else if c == ';' {
        Some(Payload::Symbol(Symbol::Semicolon))
    } else if c == ',' {
        Some(Payload::Symbol(Symbol::Comma))
    } else {
        None
    }
}

/// What a character stands for that may form a token with a following `=`,
/// where one follows it (`followed`) and where none does.
pub open spec fn paired_payload(c: char, followed: bool) -> Option<Payload> {
    if c == '=' {
        Some(
            if followed {
                Payload::Comparison(ComparisonOperation::IsEqual)
            } else {
                Payload::Symbol(Symbol::Equal)
            },
        )
    } else if c == '!' {
        Some(
            if followed {
                Payload::Comparison(ComparisonOperation::IsNotEqual)
            } else {
                Payload::Symbol(Symbol::Bang)
            },
        )
    } else if c == '<' {
        Some(
            Payload::Comparison(
                if followed {
                    ComparisonOperation::IsLessOrEqual
                } else {
                    ComparisonOperation::IsLess
                },
            ),
        )
    } else if c == '>' {
        Some(
            Payload::Comparison(
                if followed {
                    ComparisonOperation::IsGreaterOrEqual
                } else {
                    ComparisonOperation::IsGreater
                },
            ),
        )
    } else {
        None
    }
}

/// The tokens of `s` from position `i` on, where the cursor stands at `column`
/// of `line`.
///
/// A blank or a tab moves the cursor one column on, a line feed moves it to the
/// first column of the next line. A run of digits is an integer literal, and no
/// token at all where its value does not fit in `i32`. A run of letters, digits
/// and underscores that starts with no digit is a word. Any other character
/// that begins no token is passed over and leaves the cursor where it is.
pub open spec fn scan(s: Seq<char>, i: int, line: nat, column: nat) -> Seq<TokenView>
    decreases s.len() - i,
{
    if !(0 <= i < s.len()) {
        Seq::empty()
    } else {
        let c = s[i];
        if c == ' ' || c == '\t' {
            scan(s, i + 1, line, column + 1)
        } else if c == '\n' {
            scan(s, i + 1, line + 1, 1)
        } else if single_payload(c) is Some {
            seq![TokenView { info: span(line, column, 1), payload: single_payload(c)->0 }] + scan(
                s,
                i + 1,
                line,
                column + 1,
            )
        } else if paired_payload(c, true) is Some {
            if i + 1 < s.len() && s[i + 1] == '=' {
                seq![TokenView { info: span(line, column, 2), payload: paired_payload(c, true)->0 }]
                    + scan(s, i + 2, line, column + 2)
            } else {
                seq![TokenView { info: span(line, column, 1), payload: paired_payload(c, false)->0 }]
                    + scan(s, i + 1, line, column + 1)
            }
        } else if is_digit(c) {
            let j = digits_end(s, i + 1);
            proof {
                lemma_digits_end_bounds(s, i + 1);
            }
            let len = (j - i) as nat;
            let value = digits_value(s.subrange(i, j));
            let rest = scan(s, j, line, column + len);
            if value <= i32::MAX {
                seq![
                    TokenView {
                        info: span(line, column, len),
                        payload: Payload::IntegerLiteral(value as i32),
                    },
                ] + rest
            } else {
                rest
            }
        } else if is_word_start(c) {
            let j = word_end(s, i + 1);
            proof {
                lemma_word_end_bounds(s, i + 1);
            }
            let len = (j - i) as nat;
            seq![
                TokenView { info: span(line, column, len), payload: word_payload(s.subrange(i, j)) },
            ] + scan(s, j, line, column + len)
        } else {
            scan(s, i + 1, line, column)
        }
    }
}

/// The tokens of the source text `s`.
pub open spec fn lex_spec(s: Seq<char>) -> Seq<TokenView> {
    scan(s, 0, 1, 1)
}

/// A run of digits ends after where it starts and within the text.
pub proof fn lemma_digits_end_bounds(s: Seq<char>, i: int)
    requires
        0 <= i <= s.len(),
    ensures
        i <= digits_end(s, i) <= s.len(),
    decreases s.len() - i,
{
    if i < s.len() && is_digit(s[i]) {
        lemma_digits_end_bounds(s, i + 1);
    }
}

/// A word ends after where it starts and within the text.
pub proof fn lemma_word_end_bounds(s: Seq<char>, i: int)
    requires
        0 <= i <= s.len(),
    ensures
        i <= word_end(s, i) <= s.len(),
    decreases s.len() - i,
{
    if i < s.len() && is_word_part(s[i]) {
        lemma_word_end_bounds(s, i + 1);
    }
}

fn digit_at(c: char) -> (r: bool)
    ensures
        r == is_digit(c),
{
    c >= '0' && c <= '9'
}

fn word_start_at(c: char) -> (r: bool)
    ensures
        r == is_word_start(c),
{
    (c >= 'a' && c <= 'z') || (c >= 'A' && c <= 'Z') || c == '_'
}

/// The position at which the run of digits that starts at `i` ends.
fn find_digits_end(chars: &Vec<char>, i: usize) -> (j: usize)
    requires
        i <= chars@.len(),
    ensures
        j == digits_end(chars@, i as int),
        i <= j <= chars@.len(),
{
    let mut j: usize = i;
    while j < chars.len() && digit_at(chars[j])
        invariant
            i <= j <= chars@.len(),
            digits_end(chars@, i as int) == digits_end(chars@, j as int),
        decreases chars@.len() - j,
    {
        j += 1;
    }
    j
}

/// The position at which the word that starts at `i` ends.
fn find_word_end(chars: &Vec<char>, i: usize) -> (j: usize)
    requires
        i <= chars@.len(),
    ensures
        j == word_end(chars@, i as int),
        i <= j <= chars@.len(),
{
    let mut j: usize = i;
    while j < chars.len() && (word_start_at(chars[j]) || digit_at(chars[j]))
        invariant
            i <= j <= chars@.len(),
            word_end(chars@, i as int) == word_end(chars@, j as int),
        decreases chars@.len() - j,
    {
        j += 1;
    }
    j
}

/// The value of the digits from `i` to `j`, where it fits in `i32`.
fn read_digits(chars: &Vec<char>, i: usize, j: usize) -> (r: Option<i32>)
    requires
        i <= j <= chars@.len(),
        forall|k: int| i <= k < j ==> is_digit(chars@[k]),
    ensures
        r == if digits_value(chars@.subrange(i as int, j as int)) <= i32::MAX {
            Some(digits_value(chars@.subrange(i as int, j as int)) as i32)
        } else {
            None::<i32>
        },
{
    let mut value: u64 = 0;
    let mut fits: bool = true;
    let mut k: usize = i;
    assert(chars@.subrange(i as int, i as int) =~= Seq::<char>::empty());
    while k < j
        invariant
            i <= k <= j <= chars@.len(),
            forall|m: int| i <= m < j ==> is_digit(chars@[m]),
            fits ==> value == digits_value(chars@.subrange(i as int, k as int)),
            fits ==> value <= i32::MAX,
            !fits ==> digits_value(chars@.subrange(i as int, k as int)) > i32::MAX,
        decreases j - k,
    {
        let d: u64 = (chars[k] as u32 - '0' as u32) as u64;
        assert(chars@.subrange(i as int, k + 1).drop_last() =~= chars@.subrange(i as int, k as int));
        assert(chars@.subrange(i as int, k + 1).last() == chars@[k as int]);
        if fits {
            value = value * 10 + d;
            if value > 2147483647 {
                fits = false;
            }
        }
        k += 1;
    }
    if fits {
        Some(value as i32)
    } else {
        None
    }
}

/// The token for the word `word`.
fn word_token(info: TokenInfo, word: String) -> (r: Token)
    ensures
        r@ == (TokenView { info, payload: word_payload(word@) }),
{
    if word == String::from_str("true") {
        Token::new_boolean_literal(info, true)
    } else if word == String::from_str("false") {
        Token::new_boolean_literal(info, false)
    } else if word == String::from_str("void") {
        Token::new_type(info, VType::Void)
    } else if word == String::from_str("int") {
        Token::new_type(info, VType::Integer)
    } else if word == String::from_str("bool") {
        Token::new_type(info, VType::Boolean)
    } else if word == String::from_str("and") {
        Token::new_boolean(info, BooleanOperation::And)
    } else if word == String::from_str("or") {
        Token::new_boolean(info, BooleanOperation::Or)
    } else {
        Token::new_identifier(info, word)
    }
}

/// The token for a character that is a token by itself.
fn single_token(info: TokenInfo, c: char) -> (r: Option<Token>)
    ensures
        match single_payload(c) {
            Some(p) => r is Some && r->0@ == (TokenView { info, payload: p }),
            None => r is None,
        },
{
    if c == '+' {
        Some(Token::new_arithmetic(info, ArithmeticOperation::Add))
    } else if c == '-' {
        Some(Token::new_arithmetic(info, ArithmeticOperation::Subtract))
    } else if c == '*' {
        Some(Token::new_arithmetic(info, ArithmeticOperation::Multiply))
    } else if c == '/' {
        Some(Token::new_arithmetic(info, ArithmeticOperation::Divide))
    } else if c == '(' {
        Some(Token::new_symbol(info, Symbol::LeftParen))
    } else if c == ')' {
        Some(Token::new_symbol(info, Symbol::RightParen))
    } else if c == '{' {
        Some(Token::new_symbol(info, Symbol::LeftBrace))
    } else if c == '}' {
        Some(Token::new_symbol(info, Symbol::RightBrace))
    } else if c == ';' {
        Some(Token::new_symbol(info, Symbol::Semicolon))
    } else if c == ',' {
        Some(Token::new_symbol(info, Symbol::Comma))
    } else {
        None
    }
}

/// The token for a character that may be followed by `=`.
fn paired_token(info: TokenInfo, c: char, followed: bool) -> (r: Option<Token>)
    ensures
        match paired_payload(c, followed) {
            Some(p) => r is Some && r->0@ == (TokenView { info, payload: p }),
            None => r is None,
        },
{
    if c == '=' {
        if followed {
            Some(Token::new_comparison(info, ComparisonOperation::IsEqual))
        } else {
            Some(Token::new_symbol(info, Symbol::Equal))
        }
    } else if c == '!' {
        if followed {
            Some(Token::new_comparison(info, ComparisonOperation::IsNotEqual))
        } else {
            Some(Token::new_symbol(info, Symbol::Bang))
        }
    } else if c == '<' {
        if followed {
            Some(Token::new_comparison(info, ComparisonOperation::IsLessOrEqual))
        } else {
            Some(Token::new_comparison(info, ComparisonOperation::IsLess))
        }
    } else if c == '>' {
        if followed {
            Some(Token::new_comparison(info, ComparisonOperation::IsGreaterOrEqual))
        } else {
            Some(Token::new_comparison(info, ComparisonOperation::IsGreater))
        }
    } else {
        None
    }
}

fn is_paired(c: char) -> (r: bool)
    ensures
        r == paired_payload(c, true) is Some,
        r == paired_payload(c, false) is Some,
{
    c == '=' || c == '!' || c == '<' || c == '>'
}

/// The span of a token of `len` characters whose first stands `column` columns
/// after the first of the line that `line` lines follow.
fn make_info(line: usize, column: usize, len: usize) -> (r: TokenInfo)
    requires
        0 < len,
        line < usize::MAX,
        column + len <= usize::MAX,
    ensures
        r == span((line + 1) as nat, (column + 1) as nat, len as nat),
{
    TokenInfo { line: line + 1, column_begin: column + 1, column_end: column + len }
}

/// Splits the source text `data` into its tokens.
///
/// Never fails: a character that begins no token is passed over, and so is
/// an integer literal whose value does not fit in `i32`.
#[verifier::rlimit(60)]
pub fn lex(data: String) -> (tokens: VecDeque<Token>)
    ensures
        tokens_view(tokens@) == lex_spec(data@),
        data@.len() <= usize::MAX,
        tokens_valid(tokens_view(tokens@)),
        ascending(tokens_view(tokens@)),
{
    let chars = chars_of(data.as_str());
    let n = chars.len();
    let mut tokens: VecDeque<Token> = VecDeque::new();
    let mut i: usize = 0;
    // The cursor counts from 0 here, so that it stays within `n`.
    let mut line: usize = 0;
    let mut column: usize = 0;
    assert(tokens_view(tokens@) + scan(chars@, 0, 1, 1) =~= lex_spec(data@));
    while i < n
        invariant
            n == chars@.len(),
            chars@ == data@,
            i <= n,
            line <= i,
            column <= i,
            tokens_view(tokens@) + scan(chars@, i as int, (line + 1) as nat, (column + 1) as nat)
                == lex_spec(data@),
        decreases n - i,
    {
        let c = chars[i];
        let ghost before = tokens_view(tokens@);
        let ghost l = (line + 1) as nat;
        let ghost col = (column + 1) as nat;
        if c == ' ' || c == '\t' {
            column += 1;
            i += 1;
        } else if c == '\n' {
            line += 1;
            column = 0;
            i += 1;
        } else if let Some(t) = single_token(make_info(line, column, 1), c) {
            push_token(&mut tokens, t);
            assert(before.push(t@) + scan(chars@, i + 1, l, col + 1) =~= before + scan(
                chars@,
                i as int,
                l,
                col,
            ));
            column += 1;
            i += 1;
        } else if is_paired(c) {
            let followed = i + 1 < n && chars[i + 1] == '=';
            if followed {
                let t = paired_token(make_info(line, column, 2), c, true);
                let t = t.unwrap();
                push_token(&mut tokens, t);
                assert(before.push(t@) + scan(chars@, i + 2, l, col + 2) =~= before + scan(
                    chars@,
                    i as int,
                    l,
                    col,
                ));
                column += 2;
                i += 2;
            } else {
                let t = paired_token(make_info(line, column, 1), c, false);
                let t = t.unwrap();
                push_token(&mut tokens, t);
                assert(before.push(t@) + scan(chars@, i + 1, l, col + 1) =~= before + scan(
                    chars@,
                    i as int,
                    l,
                    col,
                ));
                column += 1;
                i += 1;
            }
        } else if digit_at(c) {
            let j = find_digits_end(&chars, i + 1);
            proof {
                lemma_digits_run(chars@, i + 1);
            }
            let info = make_info(line, column, j - i);
            match read_digits(&chars, i, j) {
                Some(value) => {
                    let t = Token::new_integer_literal(info, value);
                    push_token(&mut tokens, t);
                    assert(before.push(t@) + scan(chars@, j as int, l, col + (j - i) as nat)
                        =~= before + scan(chars@, i as int, l, col));
                },
                None => {},
            }
            column += j - i;
            i = j;
        } else if word_start_at(c) {
            let j = find_word_end(&chars, i + 1);
            let info = make_info(line, column, j - i);
            let word = text_of(&chars, i, j);
            let t = word_token(info, word);
            push_token(&mut tokens, t);
            assert(before.push(t@) + scan(chars@, j as int, l, col + (j - i) as nat) =~= before
                + scan(chars@, i as int, l, col));
            column += j - i;
            i = j;
        } else {
            i += 1;
        }
    }
    assert(tokens_view(tokens@) + Seq::<TokenView>::empty() =~= tokens_view(tokens@));
    proof {
        lemma_scan_spans(data@, 0, 1, 1);
    }
    tokens
}

/// Every character of a run of digits is a digit.
pub proof fn lemma_digits_run(s: Seq<char>, i: int)
    requires
        0 <= i <= s.len(),
    ensures
        forall|k: int| i <= k < digits_end(s, i) ==> is_digit(s[k]),
    decreases s.len() - i,
{
    if i < s.len() && is_digit(s[i]) {
        lemma_digits_run(s, i + 1);
    }
}

} // verus!
