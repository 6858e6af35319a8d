use stack::float::{abs_bits, equal, from_int, int_equal, less, nan, zero};

fn samples() -> Vec<f64> {
    vec![
        0.0,
        -0.0,
        1.0,
        -1.0,
        0.5,
        1.1,
        -2.75,
        f64::MIN_POSITIVE,
        -f64::MIN_POSITIVE,
        5e-324,
        -5e-324,
        f64::MAX,
        f64::MIN,
        f64::INFINITY,
        f64::NEG_INFINITY,
        f64::NAN,
        -f64::NAN,
        f64::from_bits(0x7ff0_0000_0000_0001),
        9007199254740992.0,
        9223372036854775808.0,
    ]
}

#[test]
fn equality_is_that_of_the_hardware() {
    for a in samples() {
        for b in samples() {
            assert_eq!(equal(a.to_bits(), b.to_bits()), a == b, "{:?} == {:?}", a, b);
        }
    }
}

#[test]
fn order_is_that_of_the_hardware() {
    for a in samples() {
        for b in samples() {
            assert_eq!(less(a.to_bits(), b.to_bits()), a < b, "{:?} < {:?}", a, b);
        }
    }
}

#[test]
fn classes_are_those_of_the_hardware() {
    for a in samples() {
        assert_eq!(nan(a.to_bits()), a.is_nan(), "{:?}", a);
        assert_eq!(zero(a.to_bits()), a == 0.0, "{:?}", a);
        assert_eq!(abs_bits(a.to_bits()), a.abs().to_bits(), "{:?}", a);
    }
}

#[test]
fn small_integers_convert_exactly() {
    for i in -1000i64..=1000 {
        assert_eq!(from_int(i), (i as f64).to_bits(), "{}", i);
    }
    assert_eq!(from_int(0), 0);
    assert_eq!(from_int(1), 0x3ff0_0000_0000_0000);
    assert_eq!(from_int(-2), 0xc000_0000_0000_0000);
}

#[test]
fn powers_of_two_and_their_neighbours_convert_as_the_hardware_does() {
    for k in 0..63u32 {
        let p: i64 = 1i64 << k;
        for d in -3i64..=3 {
            let i = p.wrapping_add(d);
            assert_eq!(from_int(i), (i as f64).to_bits(), "{}", i);
            let n = i.wrapping_neg();
            assert_eq!(from_int(n), (n as f64).to_bits(), "{}", n);
        }
    }
    for i in [i64::MAX, i64::MAX - 1, i64::MIN, i64::MIN + 1] {
        assert_eq!(from_int(i), (i as f64).to_bits(), "{}", i);
    }
}

#[test]
fn ties_round_to_even() {
    // Between 2^53 and 2^54 every other integer is a float: the odd ones are ties.
    let base: i64 = 1 << 53;
    assert_eq!(from_int(base + 1), (base as f64).to_bits());
    assert_eq!(from_int(base + 2), ((base + 2) as f64).to_bits());
    assert_eq!(from_int(base + 3), ((base + 4) as f64).to_bits());
    assert_eq!(from_int(base + 5), ((base + 4) as f64).to_bits());
    // Above 2^54 floats are four apart: 2 over is a tie, 1 and 3 over are none.
    let base: i64 = 1 << 54;
    assert_eq!(from_int(base + 1), (base as f64).to_bits());
    assert_eq!(from_int(base + 2), (base as f64).to_bits());
    assert_eq!(from_int(base + 3), ((base + 4) as f64).to_bits());
    assert_eq!(from_int(base + 6), ((base + 8) as f64).to_bits());
}

#[test]
fn rounding_may_carry_into_the_exponent() {
    // 2^63 - 1 rounds up to 2^63, a power of two with one digit more.
    assert_eq!(from_int(i64::MAX), 9223372036854775808.0f64.to_bits());
    let i: i64 = (1 << 54) - 1;
    assert_eq!(from_int(i), 18014398509481984.0f64.to_bits());
}

#[test]
fn scattered_integers_convert_as_the_hardware_does() {
    let mut x: u64 = 0x9e37_79b9_7f4a_7c15;
    for _ in 0..20000 {
        x ^= x << 13;
        x ^= x >> 7;
        x ^= x << 17;
        for shift in [0u32, 5, 9, 10, 11, 12, 20, 40] {
            let i = (x >> shift) as i64;
            assert_eq!(from_int(i), (i as f64).to_bits(), "{}", i);
            let n = i.wrapping_neg();
            assert_eq!(from_int(n), (n as f64).to_bits(), "{}", n);
        }
    }
}

#[test]
fn integer_meets_float() {
    assert!(int_equal(3, 3.0f64.to_bits()));
    assert!(!int_equal(3, 3.5f64.to_bits()));
    assert!(int_equal(0, (-0.0f64).to_bits()));
    assert!(!int_equal(0, f64::NAN.to_bits()));
    for i in [-5i64, 0, 7, 1 << 53, (1 << 53) + 1, i64::MAX, i64::MIN] {
        for f in samples() {
            assert_eq!(int_equal(i, f.to_bits()), i as f64 == f, "{} == {:?}", i, f);
        }
    }
}
