use stack::Expr;

fn float(f: f64) -> Expr {
    Expr::Float(f.to_bits())
}

#[test]
fn integer_to_integer() {
    let a = Expr::Integer(1);
    let b = Expr::Integer(1);
    assert_eq!(a, b);

    let a = Expr::Integer(1);
    let b = Expr::Integer(2);
    assert_ne!(a, b);
}

#[test]
fn float_to_float() {
    let a = float(1.0);
    let b = float(1.0);
    assert_eq!(a, b);

    let a = float(1.0);
    let b = float(1.1);
    assert_ne!(a, b);
}

#[test]
fn string_to_string() {
    let a = Expr::String("hello".to_owned());
    let b = Expr::String("hello".to_owned());
    assert_eq!(a, b);

    let a = Expr::String("hello".to_owned());
    let b = Expr::String("world".to_owned());
    assert_ne!(a, b);
}

#[test]
fn boolean_to_boolean() {
    let a = Expr::Boolean(true);
    let b = Expr::Boolean(true);
    assert_eq!(a, b);

    let a = Expr::Boolean(true);
    let b = Expr::Boolean(false);
    assert_ne!(a, b);
}

#[test]
fn symbol_to_symbol() {
    let a = Expr::Symbol("hello".to_owned());
    let b = Expr::Symbol("hello".to_owned());
    assert_eq!(a, b);

    let a = Expr::Symbol("hello".to_owned());
    let b = Expr::Symbol("world".to_owned());
    assert_ne!(a, b);
}

#[test]
fn call_to_call() {
    let a = Expr::Call("hello".to_owned());
    let b = Expr::Call("hello".to_owned());
    assert_eq!(a, b);

    let a = Expr::Call("hello".to_owned());
    let b = Expr::Call("world".to_owned());
    assert_ne!(a, b);
}

#[test]
fn block_to_block() {
    let a = Expr::Block(vec![Expr::Integer(1), Expr::Integer(2)]);
    let b = Expr::Block(vec![Expr::Integer(1), Expr::Integer(2)]);
    assert_eq!(a, b);

    let a = Expr::Block(vec![Expr::Integer(1), Expr::Integer(2)]);
    let b = Expr::Block(vec![Expr::Integer(1), Expr::Integer(3)]);
    assert_ne!(a, b);
}

#[test]
fn list_to_list() {
    let a = Expr::List(vec![Expr::Integer(1), Expr::Integer(2)]);
    let b = Expr::List(vec![Expr::Integer(1), Expr::Integer(2)]);
    assert_eq!(a, b);

    let a = Expr::List(vec![Expr::Integer(1), Expr::Integer(2)]);
    let b = Expr::List(vec![Expr::Integer(1), Expr::Integer(3)]);
    assert_ne!(a, b);
}

#[test]
fn nil_to_nil() {
    let a = Expr::Nil;
    let b = Expr::Nil;
    assert_eq!(a, b);
}

#[test]
fn integer_to_float() {
    let a = Expr::Integer(1);
    let b = float(1.0);
    assert_eq!(a, b);

    let a = Expr::Integer(1);
    let b = float(1.1);
    assert_ne!(a, b);
}

#[test]
fn float_to_integer() {
    let a = float(1.0);
    let b = Expr::Integer(1);
    assert_eq!(a, b);

    let a = float(1.1);
    let b = Expr::Integer(1);
    assert_ne!(a, b);
}

#[test]
fn integer_to_boolean() {
    let a = Expr::Integer(1);
    let b = Expr::Boolean(true);
    assert_eq!(a, b);

    let a = Expr::Integer(0);
    let b = Expr::Boolean(false);
    assert_eq!(a, b);
}

#[test]
fn boolean_to_integer() {
    let a = Expr::Boolean(true);
    let b = Expr::Integer(1);
    assert_eq!(a, b);

    let a = Expr::Boolean(false);
    let b = Expr::Integer(0);
    assert_eq!(a, b);
}

#[test]
fn integer_and_boolean_go_by_zero() {
    assert_eq!(Expr::Integer(-7), Expr::Boolean(true));
    assert_ne!(Expr::Integer(-7), Expr::Boolean(false));
    assert_ne!(Expr::Integer(0), Expr::Boolean(true));
    assert_ne!(Expr::Boolean(true), Expr::Integer(0));
}

#[test]
fn integer_equals_the_float_it_converts_to() {
    // 2^53 + 1 has no float of its own: it converts to 2^53.
    let big: i64 = (1 << 53) + 1;
    assert_eq!(Expr::Integer(big), float(9007199254740992.0));
    assert_eq!(float(9007199254740992.0), Expr::Integer(big));
    assert_ne!(Expr::Integer(big), float(9007199254740994.0));
    assert_eq!(Expr::Integer(i64::MAX), float(9223372036854775808.0));
    assert_eq!(Expr::Integer(i64::MIN), float(-9223372036854775808.0));
    assert_eq!(Expr::Integer(0), float(-0.0));
    assert_ne!(Expr::Integer(0), float(f64::NAN));
}

#[test]
fn floats_compare_as_ieee_floats() {
    assert_eq!(float(0.0), float(-0.0));
    assert_ne!(float(f64::NAN), float(f64::NAN));
    assert_eq!(float(f64::INFINITY), float(f64::INFINITY));
    assert_ne!(float(f64::INFINITY), float(f64::NEG_INFINITY));
}

#[test]
fn no_other_variants_are_equal() {
    let samples = || {
        vec![
            Expr::Nil,
            Expr::Boolean(true),
            Expr::Integer(1),
            float(1.0),
            Expr::String("1".to_owned()),
            Expr::Symbol("1".to_owned()),
            Expr::Call("1".to_owned()),
            Expr::Block(vec![Expr::Integer(1)]),
            Expr::List(vec![Expr::Integer(1)]),
            Expr::Record(vec![("1".to_owned(), Expr::Integer(1))]),
            Expr::Function { scope: vec![], body: vec![Expr::Integer(1)] },
            Expr::SExpr { call: "1".to_owned(), body: vec![Expr::Integer(1)] },
            Expr::Underscore,
        ]
    };
    let left = samples();
    let right = samples();
    for (i, a) in left.iter().enumerate() {
        for (j, b) in right.iter().enumerate() {
            let numeric = |k: usize| k == 1 || k == 2 || k == 3;
            let coerced = (i == 2 && numeric(j)) || (j == 2 && numeric(i));
            assert_eq!(a == b, i == j || coerced, "{:?} and {:?}", a, b);
        }
    }
}

#[test]
fn records_are_equal_whatever_their_order() {
    let a = Expr::Record(vec![
        ("x".to_owned(), Expr::Integer(1)),
        ("y".to_owned(), Expr::Integer(2)),
    ]);
    let b = Expr::Record(vec![
        ("y".to_owned(), Expr::Integer(2)),
        ("x".to_owned(), Expr::Integer(1)),
    ]);
    let c = Expr::Record(vec![
        ("x".to_owned(), Expr::Integer(1)),
        ("y".to_owned(), Expr::Integer(3)),
    ]);
    let d = Expr::Record(vec![("x".to_owned(), Expr::Integer(1))]);
    assert_eq!(a, b);
    assert_ne!(a, c);
    assert_ne!(a, d);
}

#[test]
fn truthiness() {
    assert!(!Expr::Nil.is_truthy());
    assert!(!Expr::Boolean(false).is_truthy());
    assert!(Expr::Boolean(true).is_truthy());
    assert!(!Expr::Integer(0).is_truthy());
    assert!(Expr::Integer(-1).is_truthy());
    assert!(!float(0.0).is_truthy());
    assert!(!float(-0.0).is_truthy());
    assert!(float(0.5).is_truthy());
    assert!(float(f64::NAN).is_truthy());
    assert!(Expr::String("".to_owned()).is_truthy());
    assert!(Expr::List(vec![]).is_truthy());
    assert!(Expr::Underscore.is_truthy());
}

#[test]
fn nil_is_nil() {
    assert!(Expr::Nil.is_nil());
    assert!(!Expr::Integer(0).is_nil());
    assert!(!Expr::Boolean(false).is_nil());
}

#[test]
fn nothing_becomes_nil() {
    assert_eq!(Expr::from(None), Expr::Nil);
    assert_eq!(Expr::from(Some(Expr::Integer(3))), Expr::Integer(3));
}

#[test]
fn copies_are_equal() {
    let e = Expr::Block(vec![
        Expr::Integer(1),
        Expr::List(vec![Expr::String("a".to_owned()), Expr::Nil]),
        Expr::Record(vec![("k".to_owned(), float(2.5))]),
    ]);
    assert_eq!(e.copy(), e);
}
