//! The order of the values of the machine.
//!
//! Every integer comes before every float. Two integers are ordered by their values, and
//! two floats as IEEE 754 orders them: a NaN has no place, and the two zeros share one.
use crate::float::{float_lt, is_nan, less, nan};
use crate::val::Val;
use core::cmp::Ordering;
use vstd::prelude::*;
use vstd::std_specs::cmp::PartialOrdSpecImpl;

verus! {

impl PartialOrd for Val {
    fn partial_cmp(&self, other: &Val) -> (r: Option<Ordering>) {
        match (*self, *other) {
            (Val::Integer(x), Val::Integer(y)) => if x < y {
                Some(Ordering::Less)
            } else if x > y {
                Some(Ordering::Greater)
            } else {
                Some(Ordering::Equal)
            },
            (Val::Integer(_), Val::Float(_)) => Some(Ordering::Less),
            (Val::Float(_), Val::Integer(_)) => Some(Ordering::Greater),
            (Val::Float(x), Val::Float(y)) => if nan(x) || nan(y) {
                None
            } else if less(x, y) {
                Some(Ordering::Less)
            } else if less(y, x) {
                Some(Ordering::Greater)
            } else {
                Some(Ordering::Equal)
            },
        }
    }
}

impl PartialOrdSpecImpl for Val {
    open spec fn obeys_partial_cmp_spec() -> bool {
        true
    }

    open spec fn partial_cmp_spec(&self, other: &Val) -> Option<Ordering> {
        match (*self, *other) {
            (Val::Integer(x), Val::Integer(y)) => if x < y {
                Some(Ordering::Less)
            } else if x > y {
                Some(Ordering::Greater)
            } else {
                Some(Ordering::Equal)
            },
            (Val::Integer(_), Val::Float(_)) => Some(Ordering::Less),
            (Val::Float(_), Val::Integer(_)) => Some(Ordering::Greater),
            (Val::Float(x), Val::Float(y)) => if is_nan(x) || is_nan(y) {
                None
            } else if float_lt(x, y) {
                Some(Ordering::Less)
            } else if float_lt(y, x) {
                Some(Ordering::Greater)
            } else {
                Some(Ordering::Equal)
            },
        }
    }
}

} // verus!
