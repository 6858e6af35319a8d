use stack::text::{chars_of, string_of};
use stack::{Expr, Glyph};

fn text(e: Expr) -> String {
    e.to_string().unwrap()
}

#[test]
fn atoms() {
    assert_eq!(text(Expr::Nil), "nil");
    assert_eq!(text(Expr::Boolean(true)), "true");
    assert_eq!(text(Expr::Boolean(false)), "false");
    assert_eq!(text(Expr::String("hello world".to_owned())), "hello world");
    assert_eq!(text(Expr::Symbol("sym".to_owned())), "sym");
    assert_eq!(text(Expr::Call("+".to_owned())), "+");
    assert_eq!(text(Expr::Underscore), "_");
    assert_eq!(text(Expr::String("".to_owned())), "");
}

#[test]
fn integers_in_decimal() {
    for i in [0i64, 1, -1, 9, 10, 11, 99, 100, -100, 1234567890, i64::MAX, i64::MIN, i64::MIN + 1] {
        assert_eq!(text(Expr::Integer(i)), i.to_string());
    }
    for i in -1100i64..1100 {
        assert_eq!(text(Expr::Integer(i)), i.to_string());
    }
}

#[test]
fn blocks_and_lists_in_writing() {
    let items = || vec![Expr::Integer(1), Expr::Integer(2), Expr::Integer(3)];
    assert_eq!(text(Expr::Block(items())), "(1 2 3)");
    assert_eq!(text(Expr::List(items())), "[1 2 3]");
    assert_eq!(text(Expr::Block(vec![])), "()");
    assert_eq!(text(Expr::List(vec![Expr::Nil])), "[nil]");
    assert_eq!(
        text(Expr::Block(vec![
            Expr::Integer(1),
            Expr::List(vec![Expr::Call("a".to_owned()), Expr::Block(vec![])]),
            Expr::Boolean(false),
        ])),
        "(1 [a ()] false)"
    );
}

#[test]
fn the_other_forms() {
    assert_eq!(text(Expr::Record(vec![])), "{}");
    assert_eq!(
        text(Expr::Record(vec![
            ("a".to_owned(), Expr::Integer(1)),
            ("b".to_owned(), Expr::List(vec![Expr::Integer(2)])),
        ])),
        "{a: 1 b: [2]}"
    );
    assert_eq!(
        text(Expr::Function {
            scope: vec![("x".to_owned(), Expr::Integer(1))],
            body: vec![Expr::Call("x".to_owned()), Expr::Call("dupe".to_owned())],
        }),
        "(fn x dupe)"
    );
    assert_eq!(text(Expr::Function { scope: vec![], body: vec![] }), "(fn)");
    assert_eq!(
        text(Expr::SExpr { call: "f".to_owned(), body: vec![Expr::Integer(1), Expr::Nil] }),
        "(f 1 nil)"
    );
}

#[test]
fn a_float_is_left_for_the_caller_to_write() {
    let e = Expr::List(vec![Expr::Integer(1), Expr::Float(2.5f64.to_bits())]);
    assert_eq!(e.to_string(), None);
    assert_eq!(
        e.render(),
        vec![
            Glyph::Char('['),
            Glyph::Char('1'),
            Glyph::Char(' '),
            Glyph::Float(2.5f64.to_bits()),
            Glyph::Char(']'),
        ]
    );
    let written: String = e
        .render()
        .into_iter()
        .map(|g| match g {
            Glyph::Char(c) => c.to_string(),
            Glyph::Float(bits) => f64::from_bits(bits).to_string(),
        })
        .collect();
    assert_eq!(written, "[1 2.5]");
}

#[test]
fn strings_and_their_characters() {
    for s in ["", "a", "hello", "λ é ∑", "\n\t\"\\"] {
        let chars = chars_of(s);
        assert_eq!(chars, s.chars().collect::<Vec<char>>());
        assert_eq!(string_of(&chars), s);
    }
}

#[test]
fn a_clone_is_equal() {
    let e = Expr::Block(vec![Expr::Integer(1), Expr::List(vec![Expr::String("a".to_owned())])]);
    assert_eq!(e.clone(), e);
}
