//! Floating-point numbers as their bit patterns.
//!
//! A float of the language is an IEEE 754 binary64 number. The library never computes with
//! floats: it carries each one as the 64 bits of its encoding (one sign bit, eleven exponent
//! bits, fifty-two fraction bits) and decides on those bits what can be decided exactly:
//! whether two floats are equal, how they are ordered, whether one is zero, and which float
//! an integer converts to. Arithmetic on floats, reading a float from decimal text and
//! writing one as text are left to the caller.
use vstd::arithmetic::power2::{
    lemma2_to64, lemma2_to64_rest, lemma_pow2_adds, lemma_pow2_pos,
    lemma_pow2_strictly_increases, lemma_pow2_unfold, pow2,
};
use vstd::prelude::*;

verus! {

/// The sign bit of a binary64 pattern.
pub const SIGN_BIT: u64 = 0x8000_0000_0000_0000;

/// The pattern of positive infinity: every pattern above it, the sign bit set aside, is a NaN.
pub const INFINITY: u64 = 0x7ff0_0000_0000_0000;

/// The pattern without its sign bit.
pub open spec fn magnitude(bits: u64) -> u64 {
    if bits >= SIGN_BIT {
        (bits - SIGN_BIT) as u64
    } else {
        bits
    }
}

/// Whether the sign bit is set.
pub open spec fn is_negative(bits: u64) -> bool {
    bits >= SIGN_BIT
}

/// Whether the pattern encodes a NaN.
pub open spec fn is_nan(bits: u64) -> bool {
    magnitude(bits) > INFINITY
}

/// Whether the pattern encodes positive or negative zero.
pub open spec fn is_zero(bits: u64) -> bool {
    magnitude(bits) == 0
}

/// IEEE equality: a NaN equals nothing, the two zeros are equal, and any other two floats
/// are equal exactly when their patterns are.
pub open spec fn float_eq(a: u64, b: u64) -> bool {
    !is_nan(a) && !is_nan(b) && (a == b || (is_zero(a) && is_zero(b)))
}

/// The place of a float that is no NaN on the number line: patterns of one sign are ordered
/// as their magnitudes are, negative ones in reverse, and both zeros stand at 0.
pub open spec fn rank(bits: u64) -> int {
    if is_negative(bits) {
        -(magnitude(bits) as int)
    } else {
        magnitude(bits) as int
    }
}

/// IEEE less-than: false where either side is a NaN.
pub open spec fn float_lt(a: u64, b: u64) -> bool {
    !is_nan(a) && !is_nan(b) && rank(a) < rank(b)
}

/// The number of binary digits of `n`: the least `k` with `n < 2^k`.
pub open spec fn bit_length(n: nat) -> nat
    decreases n,
{
    if n == 0 {
        0
    } else {
        1 + bit_length(n / 2)
    }
}

/// The integer nearest to `n / d`; of two equally near ones, the even one.
pub open spec fn round_half_even(n: nat, d: nat) -> nat {
    let q = n / d;
    let r = n % d;
    if 2 * r < d || (2 * r == d && q % 2 == 0) {
        q
    } else {
        q + 1
    }
}

/// The 53-digit significand of the float nearest to `m`, for `m > 0`: `m` itself, scaled up
/// to 53 binary digits where it has fewer, or scaled down and rounded half to even where it
/// has more. Rounding may carry to `2^53`.
pub open spec fn significand(m: nat) -> nat {
    let len = bit_length(m);
    if len <= 53 {
        m * pow2((53 - len) as nat)
    } else {
        round_half_even(m, pow2((len - 53) as nat))
    }
}

/// The pattern of the positive float nearest to `m`, for `m > 0`. A float with biased exponent
/// `e` and significand `s` has the pattern `(e - 1) * 2^52 + s`, also where `s` is `2^53`; the
/// biased exponent of a number of `len` binary digits is `len + 1022`.
pub open spec fn bits_of_magnitude(m: nat) -> nat {
    (bit_length(m) + 1021) * pow2(52) + significand(m)
}

/// The pattern of the float that an integer converts to: the nearest float, ties to even.
pub open spec fn bits_of_int(i: int) -> nat {
    if i == 0 {
        0
    } else if i > 0 {
        bits_of_magnitude(i as nat)
    } else {
        pow2(63) + bits_of_magnitude((-i) as nat)
    }
}

/// Rounding half to even gives a nearest integer: the rounded quotient, times the divisor,
/// is no further from the dividend than half the divisor, and where it is exactly that
/// far, the rounded quotient is even.
pub proof fn lemma_round_half_even(n: nat, d: nat)
    requires
        d > 0,
    ensures
        -(d as int) <= 2 * (round_half_even(n, d) * d - n) <= d,
        2 * (round_half_even(n, d) * d - n) == d || 2 * (n - round_half_even(n, d) * d) == d
            ==> round_half_even(n, d) % 2 == 0,
{
    let q = n / d;
    let r = n % d;
    assert(n == q * d + r && 0 <= r < d) by (nonlinear_arith)
        requires
            q == n / d,
            r == n % d,
            d > 0,
    ;
    assert((q + 1) * d == q * d + d) by (nonlinear_arith);
}

/// Whether the float that `i` converts to equals the float `f`.
pub open spec fn int_equals_float(i: i64, f: u64) -> bool {
    float_eq(bits_of_int(i as int) as u64, f)
}

/// A number between `2^(len-1)` and `2^len` has `len` binary digits.
pub proof fn lemma_bit_length(m: nat, len: nat)
    requires
        len >= 1,
        pow2((len - 1) as nat) <= m < pow2(len),
    ensures
        bit_length(m) == len,
    decreases len,
{
    lemma2_to64();
    if len == 1 {
        assert(m == 1);
        assert(bit_length(1) == 1 + bit_length(0));
    } else {
        lemma_pow2_unfold(len);
        lemma_pow2_unfold((len - 1) as nat);
        lemma_bit_length(m / 2, (len - 1) as nat);
    }
}

/// The pattern without its sign bit.
pub fn abs_bits(bits: u64) -> (r: u64)
    ensures
        r == magnitude(bits),
{
    if bits >= SIGN_BIT {
        bits - SIGN_BIT
    } else {
        bits
    }
}

/// Whether the pattern encodes a NaN.
pub fn nan(bits: u64) -> (r: bool)
    ensures
        r == is_nan(bits),
{
    abs_bits(bits) > INFINITY
}

/// Whether the pattern encodes a zero of either sign.
pub fn zero(bits: u64) -> (r: bool)
    ensures
        r == is_zero(bits),
{
    abs_bits(bits) == 0
}

/// Whether two floats are equal, as IEEE 754 compares them.
pub fn equal(a: u64, b: u64) -> (r: bool)
    ensures
        r == float_eq(a, b),
{
    !nan(a) && !nan(b) && (a == b || (zero(a) && zero(b)))
}

/// Whether `a` is less than `b`, as IEEE 754 compares them.
pub fn less(a: u64, b: u64) -> (r: bool)
    ensures
        r == float_lt(a, b),
{
    if nan(a) || nan(b) {
        return false;
    }
    let ma = abs_bits(a);
    let mb = abs_bits(b);
    if a >= SIGN_BIT {
        if b >= SIGN_BIT {
            mb < ma
        } else {
            ma != 0 || mb != 0
        }
    } else {
        if b >= SIGN_BIT {
            false
        } else {
            ma < mb
        }
    }
}

/// The pattern of the positive float nearest to `m`.
fn from_magnitude(m: u64) -> (bits: u64)
    requires
        0 < m <= 0x8000_0000_0000_0000,
    ensures
        bits == bits_of_magnitude(m as nat),
        bits < SIGN_BIT,
{
    proof {
        lemma2_to64();
        lemma2_to64_rest();
    }
    let mut len: u64 = 0;
    let mut p: u128 = 1;
    while p <= m as u128
        invariant
            len <= 64,
            p == pow2(len as nat),
            len > 0 ==> pow2((len - 1) as nat) <= m,
            m <= 0x8000_0000_0000_0000,
        decreases 65 - len,
    {
        proof {
            lemma2_to64_rest();
            lemma_pow2_unfold((len + 1) as nat);
            if len >= 64 {
                lemma_pow2_strictly_increases(63, len as nat);
            }
        }
        p = 2 * p;
        len = len + 1;
    }
    proof {
        lemma_bit_length(m as nat, len as nat);
    }
    let mut d: u64 = 1;
    let sig: u64;
    if len <= 53 {
        let mut k: u64 = len;
        while k < 53
            invariant
                len <= k <= 53,
                d == pow2((k - len) as nat),
                d <= 0x20_0000_0000_0000,
            decreases 53 - k,
        {
            proof {
                lemma2_to64_rest();
                lemma_pow2_unfold((k + 1 - len) as nat);
                if k + 1 - len < 53 {
                    lemma_pow2_strictly_increases((k + 1 - len) as nat, 53);
                }
            }
            d = 2 * d;
            k = k + 1;
        }
        proof {
            lemma_pow2_adds(len as nat, (53 - len) as nat);
            lemma_pow2_pos((53 - len) as nat);
            assert(m * d < pow2(len as nat) * d) by (nonlinear_arith)
                requires
                    m < pow2(len as nat),
                    d > 0,
            ;
        }
        sig = m * d;
    } else {
        let mut k: u64 = 53;
        while k < len
            invariant
                53 <= k <= len <= 64,
                d == pow2((k - 53) as nat),
                d <= 0x800,
            decreases len - k,
        {
            proof {
                lemma2_to64();
                lemma_pow2_unfold((k + 1 - 53) as nat);
                if k + 1 - 53 < 11 {
                    lemma_pow2_strictly_increases((k + 1 - 53) as nat, 11);
                }
            }
            d = 2 * d;
            k = k + 1;
        }
        let q = m / d;
        let r = m % d;
        proof {
            lemma_pow2_adds(53, (len - 53) as nat);
            lemma_pow2_pos((len - 53) as nat);
            assert(q < pow2(53)) by (nonlinear_arith)
                requires
                    q == m / d,
                    m < pow2(53) * d,
                    d > 0,
            ;
        }
        if 2 * r < d || (2 * r == d && q % 2 == 0) {
            sig = q;
        } else {
            sig = q + 1;
        }
    }
    assert(sig == significand(m as nat));
    (len + 1021) * 0x10_0000_0000_0000 + sig
}

/// The pattern of the float that `i` converts to: the float nearest to `i`, and of two
/// equally near ones the one with an even significand.
pub fn from_int(i: i64) -> (bits: u64)
    ensures
        bits == bits_of_int(i as int),
{
    proof {
        lemma2_to64_rest();
    }
    if i == 0 {
        0
    } else if i > 0 {
        from_magnitude(i as u64)
    } else {
        let m: u64 = (-(i + 1)) as u64 + 1;
        SIGN_BIT + from_magnitude(m)
    }
}

/// Whether the float that `i` converts to equals the float `f`.
pub fn int_equal(i: i64, f: u64) -> (r: bool)
    ensures
        r == int_equals_float(i, f),
{
    equal(from_int(i), f)
}

} // verus!
