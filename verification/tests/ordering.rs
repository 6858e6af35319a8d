use stack::Val;

/// The same values with the order that the compiler derives for them.
#[derive(Debug, Clone, Copy, PartialEq, PartialOrd)]
enum Mirror {
    Integer(i64),
    Float(f64),
}

fn val(m: Mirror) -> Val {
    match m {
        Mirror::Integer(i) => Val::Integer(i),
        Mirror::Float(f) => Val::Float(f.to_bits()),
    }
}

#[test]
fn values_are_ordered_as_their_variants_and_contents_are() {
    let samples = [
        Mirror::Integer(i64::MIN),
        Mirror::Integer(-1),
        Mirror::Integer(0),
        Mirror::Integer(1),
        Mirror::Integer(i64::MAX),
        Mirror::Float(f64::NEG_INFINITY),
        Mirror::Float(-1.5),
        Mirror::Float(-0.0),
        Mirror::Float(0.0),
        Mirror::Float(5e-324),
        Mirror::Float(1.0),
        Mirror::Float(f64::INFINITY),
        Mirror::Float(f64::NAN),
    ];
    for a in samples {
        for b in samples {
            assert_eq!(val(a).partial_cmp(&val(b)), a.partial_cmp(&b), "{:?} {:?}", a, b);
            assert_eq!(val(a) < val(b), a < b, "{:?} < {:?}", a, b);
            assert_eq!(val(a) >= val(b), a >= b, "{:?} >= {:?}", a, b);
            assert_eq!(val(a) == val(b), a == b, "{:?} == {:?}", a, b);
        }
    }
}
