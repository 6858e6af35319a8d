//! The values of the machine: integers and floats, and their arithmetic.
//!
//! Integer arithmetic saturates: a result beyond the 64-bit range is the bound it went
//! beyond. Float arithmetic is not done here: an operation on two floats hands their bit
//! patterns back for the caller's floating-point unit. Operands that an operation does not
//! support, an integer with a float or a zero divisor, come back as they were given.
use crate::float::{
    bits_of_int, equal, float_eq, float_lt, from_int, int_equal, int_equals_float, is_zero, less,
    zero,
};
use vstd::prelude::*;
use vstd::std_specs::cmp::PartialEqSpecImpl;

verus! {

/// A value of the machine.
#[derive(Debug, Clone, Copy)]
pub enum Val {
    Integer(i64),
    /// A float, as the bit pattern of its binary64 encoding.
    Float(u64),
}

/// What an operation on two supported operands comes to.
#[derive(Debug, Clone, Copy)]
pub enum Arith {
    /// The result.
    Done(Val),
    /// Both operands are floats, the left one first: the result is for the caller's
    /// floating-point unit to compute.
    Floats(u64, u64),
}

/// The integer within the 64-bit range that is nearest to `v`.
pub open spec fn clamp(v: int) -> i64 {
    if v > i64::MAX {
        i64::MAX
    } else if v < i64::MIN {
        i64::MIN
    } else {
        v as i64
    }
}

/// The absolute value.
pub open spec fn abs(v: int) -> int {
    if v < 0 {
        -v
    } else {
        v
    }
}

/// The quotient of `x` by `y`, rounded toward zero, for `y != 0`.
pub open spec fn quotient(x: int, y: int) -> int {
    if (x < 0) == (y < 0) {
        abs(x) / abs(y)
    } else {
        -(abs(x) / abs(y))
    }
}

/// The remainder that goes with [`quotient`], for `y != 0`: that of the absolute values,
/// with the sign of `x`.
pub open spec fn remainder(x: int, y: int) -> int {
    if x < 0 {
        -(abs(x) % abs(y))
    } else {
        abs(x) % abs(y)
    }
}

/// Quotient and remainder belong together: the quotient times the divisor, and the
/// remainder, make up the dividend, and the remainder is nearer to zero than the divisor.
pub proof fn lemma_quotient_remainder(x: int, y: int)
    requires
        y != 0,
    ensures
        x == y * quotient(x, y) + remainder(x, y),
        abs(remainder(x, y)) < abs(y),
{
    let q = abs(x) / abs(y);
    let m = abs(x) % abs(y);
    assert(abs(x) == abs(y) * q + m && 0 <= m < abs(y)) by (nonlinear_arith)
        requires
            q == abs(x) / abs(y),
            m == abs(x) % abs(y),
            abs(y) > 0,
    ;
    assert(x == y * quotient(x, y) + remainder(x, y)) by (nonlinear_arith)
        requires
            abs(x) == abs(y) * q + m,
            quotient(x, y) == (if (x < 0) == (y < 0) {
                q
            } else {
                -q
            }),
            remainder(x, y) == (if x < 0 {
                -m
            } else {
                m
            }),
            abs(x) == (if x < 0 {
                -x
            } else {
                x
            }),
            abs(y) == (if y < 0 {
                -y
            } else {
                y
            }),
    ;
}

impl Val {
    /// The sum: of two integers, saturating; of two floats, deferred.
    pub open spec fn sum(self, rhs: Val) -> Result<Arith, (Val, Val)> {
        match (self, rhs) {
            (Val::Integer(x), Val::Integer(y)) => Ok(Arith::Done(Val::Integer(clamp(x + y)))),
            (Val::Float(x), Val::Float(y)) => Ok(Arith::Floats(x, y)),
            _ => Err((self, rhs)),
        }
    }

    /// The difference: of two integers, saturating; of two floats, deferred.
    pub open spec fn difference(self, rhs: Val) -> Result<Arith, (Val, Val)> {
        match (self, rhs) {
            (Val::Integer(x), Val::Integer(y)) => Ok(Arith::Done(Val::Integer(clamp(x - y)))),
            (Val::Float(x), Val::Float(y)) => Ok(Arith::Floats(x, y)),
            _ => Err((self, rhs)),
        }
    }

    /// The product: of two integers, saturating; of two floats, deferred.
    pub open spec fn product(self, rhs: Val) -> Result<Arith, (Val, Val)> {
        match (self, rhs) {
            (Val::Integer(x), Val::Integer(y)) => Ok(Arith::Done(Val::Integer(clamp(x * y)))),
            (Val::Float(x), Val::Float(y)) => Ok(Arith::Floats(x, y)),
            _ => Err((self, rhs)),
        }
    }

    /// The quotient: of two integers, rounded toward zero and saturating, with no quotient
    /// by zero; of two floats, deferred.
    pub open spec fn ratio(self, rhs: Val) -> Result<Arith, (Val, Val)> {
        match (self, rhs) {
            (Val::Integer(x), Val::Integer(y)) => if y == 0 {
                Err((self, rhs))
            } else {
                Ok(Arith::Done(Val::Integer(clamp(quotient(x as int, y as int)))))
            },
            (Val::Float(x), Val::Float(y)) => Ok(Arith::Floats(x, y)),
            _ => Err((self, rhs)),
        }
    }

    /// The remainder: of two integers, with the sign of the left one and none by zero; of
    /// two floats, deferred.
    pub open spec fn modulo(self, rhs: Val) -> Result<Arith, (Val, Val)> {
        match (self, rhs) {
            (Val::Integer(x), Val::Integer(y)) => if y == 0 {
                Err((self, rhs))
            } else {
                Ok(Arith::Done(Val::Integer(clamp(remainder(x as int, y as int)))))
            },
            (Val::Float(x), Val::Float(y)) => Ok(Arith::Floats(x, y)),
            _ => Err((self, rhs)),
        }
    }

    /// Equality with numeric coercion: two integers by their values, two floats as IEEE 754
    /// compares them, and an integer with a float as the float it converts to.
    pub open spec fn equals(self, rhs: Val) -> bool {
        match (self, rhs) {
            (Val::Integer(x), Val::Integer(y)) => x == y,
            (Val::Float(x), Val::Float(y)) => float_eq(x, y),
            (Val::Integer(x), Val::Float(y)) => int_equals_float(x, y),
            (Val::Float(x), Val::Integer(y)) => int_equals_float(y, x),
        }
    }

    /// Less-than with numeric coercion: an integer that meets a float is compared as the
    /// float it converts to.
    pub open spec fn precedes(self, rhs: Val) -> bool {
        match (self, rhs) {
            (Val::Integer(x), Val::Integer(y)) => x < y,
            (Val::Float(x), Val::Float(y)) => float_lt(x, y),
            (Val::Integer(x), Val::Float(y)) => float_lt(bits_of_int(x as int) as u64, y),
            (Val::Float(x), Val::Integer(y)) => float_lt(x, bits_of_int(y as int) as u64),
        }
    }

    /// Equality without coercion: two integers by their values, two floats as IEEE 754
    /// compares them, and an integer never equal to a float.
    pub open spec fn matches(self, rhs: Val) -> bool {
        match (self, rhs) {
            (Val::Integer(x), Val::Integer(y)) => x == y,
            (Val::Float(x), Val::Float(y)) => float_eq(x, y),
            _ => false,
        }
    }

    /// Truthiness: every value but the integer zero and the float zeros is true.
    pub open spec fn truthy(self) -> bool {
        match self {
            Val::Integer(x) => x != 0,
            Val::Float(x) => !is_zero(x),
        }
    }

    /// The sum of two values.
    pub fn add(self, rhs: Val) -> (r: Result<Arith, (Val, Val)>)
        ensures
            r == self.sum(rhs),
    {
        match (self, rhs) {
            (Val::Integer(x), Val::Integer(y)) => {
                let v = match x.checked_add(y) {
                    Some(v) => v,
                    None => if y > 0 {
                        i64::MAX
                    } else {
                        i64::MIN
                    },
                };
                Ok(Arith::Done(Val::Integer(v)))
            },
            (Val::Float(x), Val::Float(y)) => Ok(Arith::Floats(x, y)),
            (lhs, rhs) => Err((lhs, rhs)),
        }
    }

    /// The difference of two values.
    pub fn sub(self, rhs: Val) -> (r: Result<Arith, (Val, Val)>)
        ensures
            r == self.difference(rhs),
    {
        match (self, rhs) {
            (Val::Integer(x), Val::Integer(y)) => {
                let v = match x.checked_sub(y) {
                    Some(v) => v,
                    None => if y < 0 {
                        i64::MAX
                    } else {
                        i64::MIN
                    },
                };
                Ok(Arith::Done(Val::Integer(v)))
            },
            (Val::Float(x), Val::Float(y)) => Ok(Arith::Floats(x, y)),
            (lhs, rhs) => Err((lhs, rhs)),
        }
    }

    /// The product of two values.
    pub fn mul(self, rhs: Val) -> (r: Result<Arith, (Val, Val)>)
        ensures
            r == self.product(rhs),
    {
        match (self, rhs) {
            (Val::Integer(x), Val::Integer(y)) => {
                let v = match x.checked_mul(y) {
                    Some(v) => v,
                    None => {
                        assert((x < 0) == (y < 0) ==> x * y >= 0) by (nonlinear_arith);
                        assert((x < 0) != (y < 0) ==> x * y <= 0) by (nonlinear_arith);
                        if (x < 0) == (y < 0) {
                            i64::MAX
                        } else {
                            i64::MIN
                        }
                    },
                };
                Ok(Arith::Done(Val::Integer(v)))
            },
            (Val::Float(x), Val::Float(y)) => Ok(Arith::Floats(x, y)),
            (lhs, rhs) => Err((lhs, rhs)),
        }
    }

    /// The quotient of two values.
    pub fn div(self, rhs: Val) -> (r: Result<Arith, (Val, Val)>)
        ensures
            r == self.ratio(rhs),
    {
        match (self, rhs) {
            (Val::Integer(x), Val::Integer(y)) => {
                if y == 0 {
                    return Err((self, rhs));
                }
                let q = magnitude(x) / magnitude(y);
                let v = if (x < 0) == (y < 0) {
                    if q > 0x7fff_ffff_ffff_ffff {
                        i64::MAX
                    } else {
                        q as i64
                    }
                } else {
                    negated(q)
                };
                Ok(Arith::Done(Val::Integer(v)))
            },
            (Val::Float(x), Val::Float(y)) => Ok(Arith::Floats(x, y)),
            (lhs, rhs) => Err((lhs, rhs)),
        }
    }

    /// The remainder of two values.
    pub fn rem(self, rhs: Val) -> (r: Result<Arith, (Val, Val)>)
        ensures
            r == self.modulo(rhs),
    {
        match (self, rhs) {
            (Val::Integer(x), Val::Integer(y)) => {
                if y == 0 {
                    return Err((self, rhs));
                }
                let mx = magnitude(x);
                let my = magnitude(y);
                let m = mx % my;
                let v = if x < 0 {
                    negated(m)
                } else {
                    m as i64
                };
                Ok(Arith::Done(Val::Integer(v)))
            },
            (Val::Float(x), Val::Float(y)) => Ok(Arith::Floats(x, y)),
            (lhs, rhs) => Err((lhs, rhs)),
        }
    }

    /// Whether two values are equal, an integer that meets a float converted to a float.
    pub fn is_equal(self, rhs: Val) -> (r: bool)
        ensures
            r == self.equals(rhs),
    {
        match (self, rhs) {
            (Val::Integer(x), Val::Integer(y)) => x == y,
            (Val::Float(x), Val::Float(y)) => equal(x, y),
            (Val::Integer(x), Val::Float(y)) => int_equal(x, y),
            (Val::Float(x), Val::Integer(y)) => int_equal(y, x),
        }
    }

    /// Whether the value is less than `rhs`, an integer that meets a float converted to a
    /// float.
    pub fn is_less(self, rhs: Val) -> (r: bool)
        ensures
            r == self.precedes(rhs),
    {
        match (self, rhs) {
            (Val::Integer(x), Val::Integer(y)) => x < y,
            (Val::Float(x), Val::Float(y)) => less(x, y),
            (Val::Integer(x), Val::Float(y)) => less(from_int(x), y),
            (Val::Float(x), Val::Integer(y)) => less(x, from_int(y)),
        }
    }

    /// Whether the value counts as true.
    pub fn is_truthy(self) -> (r: bool)
        ensures
            r == self.truthy(),
    {
        match self {
            Val::Integer(x) => x != 0,
            Val::Float(x) => !zero(x),
        }
    }
}

/// The absolute value of an integer.
fn magnitude(x: i64) -> (m: u64)
    ensures
        m == abs(x as int),
{
    if x < 0 {
        (-(x + 1)) as u64 + 1
    } else {
        x as u64
    }
}

/// The negative of a magnitude of at most `2^63`.
fn negated(m: u64) -> (v: i64)
    requires
        m <= 0x8000_0000_0000_0000,
    ensures
        v == -(m as int),
{
    if m == 0x8000_0000_0000_0000 {
        i64::MIN
    } else {
        -(m as i64)
    }
}

impl PartialEq for Val {
    /// Equality without coercion: values of different variants are unequal.
    fn eq(&self, other: &Val) -> (r: bool) {
        match (*self, *other) {
            (Val::Integer(x), Val::Integer(y)) => x == y,
            (Val::Float(x), Val::Float(y)) => equal(x, y),
            _ => false,
        }
    }
}

impl PartialEqSpecImpl for Val {
    open spec fn obeys_eq_spec() -> bool {
        true
    }

    open spec fn eq_spec(&self, other: &Val) -> bool {
        self.matches(*other)
    }
}

} // verus!
