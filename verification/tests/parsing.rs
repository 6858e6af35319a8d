use stack::{lex, parse, try_parse, Expr, ParseError, Token};

#[test]
fn implicit_block() {
    let tokens = lex("(1 2 3)".to_owned());
    let expected = vec![Expr::Block(vec![
        Expr::Integer(1),
        Expr::Integer(2),
        Expr::Integer(3),
    ])];

    assert_eq!(parse(tokens), expected);
}

#[test]
fn block_at_beginning() {
    let tokens = lex("(1 2 3) 4 5 6".to_owned());
    let expected = vec![
        Expr::Block(vec![Expr::Integer(1), Expr::Integer(2), Expr::Integer(3)]),
        Expr::Integer(4),
        Expr::Integer(5),
        Expr::Integer(6),
    ];

    assert_eq!(parse(tokens), expected);
}

#[test]
fn nested_blocks() {
    let tokens = lex("(1 (2 3) 4)".to_owned());
    let expected = vec![Expr::Block(vec![
        Expr::Integer(1),
        Expr::Block(vec![Expr::Integer(2), Expr::Integer(3)]),
        Expr::Integer(4),
    ])];

    assert_eq!(parse(tokens), expected);
}

#[test]
fn blocks_and_lists() {
    let tokens = lex("(1 [2 3] 4)".to_owned());
    let expected = vec![Expr::Block(vec![
        Expr::Integer(1),
        Expr::List(vec![Expr::Integer(2), Expr::Integer(3)]),
        Expr::Integer(4),
    ])];

    assert_eq!(parse(tokens), expected);
}

#[test]
fn fail_for_only_start_paren() {
    let tokens = lex("(".to_owned());
    let exprs = parse(tokens);
    assert_eq!(exprs, vec![]);
}

#[test]
fn fail_for_only_end_paren() {
    let tokens = lex(")".to_owned());
    let exprs = parse(tokens);
    assert_eq!(exprs, vec![]);
}

#[test]
fn fail_for_mismatched_parens() {
    let tokens = lex("(1 2 3]".to_owned());
    let exprs = parse(tokens);
    assert_eq!(exprs, vec![]);
}

#[test]
fn booleans() {
    let tokens = lex("true false".to_owned());
    let expected = vec![Expr::Boolean(true), Expr::Boolean(false)];

    assert_eq!(parse(tokens), expected);
}

#[test]
fn list_and_block_of_the_same_items_differ() {
    let block = parse(lex("(1 2 3)".to_owned()));
    let list = parse(lex("[1 2 3]".to_owned()));
    let items = || vec![Expr::Integer(1), Expr::Integer(2), Expr::Integer(3)];
    assert_eq!(block, vec![Expr::Block(items())]);
    assert_eq!(list, vec![Expr::List(items())]);
    assert_ne!(block, list);
}

#[test]
fn errors_are_told_apart() {
    assert_eq!(try_parse(lex("(".to_owned())), Err(ParseError::UnbalancedBlocks));
    assert_eq!(try_parse(lex("(1 [2 3)".to_owned())), Err(ParseError::MismatchedBrackets));
    assert_eq!(try_parse(lex(")".to_owned())), Err(ParseError::MismatchedBrackets));
    assert_eq!(try_parse(lex("(1 2 3]".to_owned())), Err(ParseError::MismatchedBrackets));
    assert_eq!(try_parse(lex("1 ]".to_owned())), Err(ParseError::MismatchedBrackets));
    assert_eq!(try_parse(lex("[[1]".to_owned())), Err(ParseError::UnbalancedBlocks));
    assert_eq!(try_parse(lex("".to_owned())), Ok(vec![]));
    assert_eq!(try_parse(lex("()".to_owned())), Ok(vec![Expr::Block(vec![])]));
}

#[test]
fn first_error_wins() {
    // The mismatched closer comes before the end of the tokens, where a bracket is open.
    assert_eq!(try_parse(lex("( ] (".to_owned())), Err(ParseError::MismatchedBrackets));
}

#[test]
fn one_expression_for_each_top_level_item() {
    let exprs = parse(lex("1 (2 (3 4)) [5] six 'seven \"eight\" nil".to_owned()));
    assert_eq!(exprs.len(), 7);
    assert_eq!(
        exprs,
        vec![
            Expr::Integer(1),
            Expr::Block(vec![
                Expr::Integer(2),
                Expr::Block(vec![Expr::Integer(3), Expr::Integer(4)]),
            ]),
            Expr::List(vec![Expr::Integer(5)]),
            Expr::Call("six".to_owned()),
            Expr::Symbol("seven".to_owned()),
            Expr::String("eight".to_owned()),
            Expr::Nil,
        ]
    );
}

#[test]
fn float_literal_is_parsed_once_its_value_is_filled_in() {
    let tokens = lex("1.5".to_owned());
    assert_eq!(try_parse(tokens), Err(ParseError::UnresolvedFloat));

    let tokens: Vec<Token> = lex("[1.5 2]".to_owned())
        .into_iter()
        .map(|token| match &token {
            Token::FloatLiteral(text) => {
                let value: f64 = text.parse().unwrap();
                token.resolve(value.to_bits())
            }
            _ => token,
        })
        .collect();
    assert_eq!(
        parse(tokens),
        vec![Expr::List(vec![Expr::Float(1.5f64.to_bits()), Expr::Integer(2)])]
    );
}

#[test]
fn quoted_names_stay_symbols() {
    assert_eq!(
        parse(lex("'true true".to_owned())),
        vec![Expr::Symbol("true".to_owned()), Expr::Boolean(true)]
    );
}
