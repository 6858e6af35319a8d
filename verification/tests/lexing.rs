use stack::{lex, scan, LexError, LexErrorKind, Token};

fn words(tokens: &[Token]) -> Vec<String> {
    tokens.iter().map(|t| format!("{:?}", t)).collect()
}

fn same(tokens: Vec<Token>, expected: Vec<Token>) {
    assert_eq!(words(&tokens), words(&expected));
}

#[test]
fn brackets_and_integers() {
    same(
        lex("(1 [2 3] 4)".to_owned()),
        vec![
            Token::ParenStart,
            Token::Integer(1),
            Token::BracketStart,
            Token::Integer(2),
            Token::Integer(3),
            Token::BracketEnd,
            Token::Integer(4),
            Token::ParenEnd,
        ],
    );
}

#[test]
fn tokens_come_in_the_order_of_the_text() {
    same(
        lex("2 2 +".to_owned()),
        vec![Token::Integer(2), Token::Integer(2), Token::Call("+".to_owned())],
    );
}

#[test]
fn whitespace_separates_and_is_skipped() {
    same(
        lex(" \t1\n\r 2  ".to_owned()),
        vec![Token::Integer(1), Token::Integer(2)],
    );
    same(lex("".to_owned()), vec![]);
    same(lex("   ".to_owned()), vec![]);
}

#[test]
fn brackets_need_no_space() {
    same(
        lex("(a)[b]".to_owned()),
        vec![
            Token::ParenStart,
            Token::Call("a".to_owned()),
            Token::ParenEnd,
            Token::BracketStart,
            Token::Call("b".to_owned()),
            Token::BracketEnd,
        ],
    );
}

#[test]
fn a_decimal_point_makes_a_float_literal() {
    same(
        lex("1.5 -0.25 3. .5 10".to_owned()),
        vec![
            Token::FloatLiteral("1.5".to_owned()),
            Token::FloatLiteral("-0.25".to_owned()),
            Token::FloatLiteral("3.".to_owned()),
            Token::FloatLiteral(".5".to_owned()),
            Token::Integer(10),
        ],
    );
}

#[test]
fn every_float_literal_is_one_that_the_standard_library_reads() {
    for token in lex("1.5 -0.25 3. .5 -.5 -7. 0.0 123456789.987654321".to_owned()) {
        match token {
            Token::FloatLiteral(text) => {
                assert!(text.parse::<f64>().is_ok(), "{}", text);
            }
            other => panic!("{:?}", other),
        }
    }
}

#[test]
fn what_is_no_number_is_a_call() {
    same(
        lex("- . -. 1.2.3 1e5 12abc -x nil? true".to_owned()),
        vec![
            Token::Call("-".to_owned()),
            Token::Call(".".to_owned()),
            Token::Call("-.".to_owned()),
            Token::Call("1.2.3".to_owned()),
            Token::Call("1e5".to_owned()),
            Token::Call("12abc".to_owned()),
            Token::Call("-x".to_owned()),
            Token::Call("nil?".to_owned()),
            Token::Call("true".to_owned()),
        ],
    );
}

#[test]
fn nil_and_symbols() {
    same(
        lex("nil 'nil 'a:b".to_owned()),
        vec![
            Token::Nil,
            Token::Symbol("nil".to_owned()),
            Token::Symbol("a:b".to_owned()),
        ],
    );
}

#[test]
fn negative_integers() {
    same(
        lex("-1 -0 007".to_owned()),
        vec![Token::Integer(-1), Token::Integer(0), Token::Integer(7)],
    );
}

#[test]
fn integers_up_to_the_bounds() {
    same(
        lex("9223372036854775807 -9223372036854775808".to_owned()),
        vec![Token::Integer(i64::MAX), Token::Integer(i64::MIN)],
    );
}

#[test]
fn integer_overflow_is_an_error() {
    assert_eq!(
        scan("1 9223372036854775808").err(),
        Some(LexError { kind: LexErrorKind::IntegerOverflow, at: 2 })
    );
    assert_eq!(
        scan("-9223372036854775809").err(),
        Some(LexError { kind: LexErrorKind::IntegerOverflow, at: 0 })
    );
    assert_eq!(
        scan("123456789012345678901234567890").err(),
        Some(LexError { kind: LexErrorKind::IntegerOverflow, at: 0 })
    );
    same(lex("1 9223372036854775808".to_owned()), vec![]);
}

#[test]
fn strings_and_their_escapes() {
    same(
        lex("\"hello world\" \"\" \"a\\nb\\t\\\"c\\\"\\\\\"".to_owned()),
        vec![
            Token::String("hello world".to_owned()),
            Token::String("".to_owned()),
            Token::String("a\nb\t\"c\"\\".to_owned()),
        ],
    );
    same(lex("\"\\r\\0\"".to_owned()), vec![Token::String("\r\0".to_owned())]);
}

#[test]
fn a_string_ends_a_word() {
    same(
        lex("a\"b\"c".to_owned()),
        vec![
            Token::Call("a".to_owned()),
            Token::String("b".to_owned()),
            Token::Call("c".to_owned()),
        ],
    );
}

#[test]
fn strings_keep_brackets_and_spaces() {
    same(lex("\"( ] \"".to_owned()), vec![Token::String("( ] ".to_owned())]);
}

#[test]
fn malformed_strings_are_errors() {
    assert_eq!(
        scan("1 \"abc").err(),
        Some(LexError { kind: LexErrorKind::MalformedString, at: 2 })
    );
    assert_eq!(
        scan("\"a\\qb\"").err(),
        Some(LexError { kind: LexErrorKind::MalformedString, at: 0 })
    );
    assert_eq!(
        scan("\"abc\\").err(),
        Some(LexError { kind: LexErrorKind::MalformedString, at: 0 })
    );
}

#[test]
fn a_lone_quote_is_an_error() {
    assert_eq!(
        scan("a ' b").err(),
        Some(LexError { kind: LexErrorKind::MalformedSymbol, at: 2 })
    );
}

#[test]
fn text_beyond_ascii() {
    same(
        lex("'λ \"é\" ∑".to_owned()),
        vec![
            Token::Symbol("λ".to_owned()),
            Token::String("é".to_owned()),
            Token::Call("∑".to_owned()),
        ],
    );
    // The place of an error counts characters, not bytes.
    assert_eq!(
        scan("é \"").err(),
        Some(LexError { kind: LexErrorKind::MalformedString, at: 2 })
    );
}

#[test]
fn resolving_fills_in_float_literals_only() {
    let token = Token::FloatLiteral("1.5".to_owned()).resolve(1.5f64.to_bits());
    assert!(matches!(token, Token::Float(bits) if bits == 1.5f64.to_bits()));
    let token = Token::Integer(3).resolve(1.5f64.to_bits());
    assert!(matches!(token, Token::Integer(3)));
    let token = Token::Call("x".to_owned()).resolve(0);
    assert!(matches!(token, Token::Call(name) if name == "x"));
}
