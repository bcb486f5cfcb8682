use vstd::prelude::*;
use crate::wide::{I256, U256};
use crate::int_types::Int;

verus! {

/// Describes a number that can tell whether it is zero.
pub trait IsZero {
    fn is_zero(&self) -> bool;

    fn is_non_zero(&self) -> bool;
}

impl IsZero for Int<u64> {
    fn is_zero(&self) -> (r: bool)
        ensures
            r == (self.0 == 0),
    {
        self.0 == 0
    }

    fn is_non_zero(&self) -> (r: bool)
        ensures
            r == (self.0 != 0),
    {
        self.0 != 0
    }
}

impl IsZero for Int<u128> {
    fn is_zero(&self) -> (r: bool)
        ensures
            r == (self.0 == 0),
    {
        self.0 == 0
    }

    fn is_non_zero(&self) -> (r: bool)
        ensures
            r == (self.0 != 0),
    {
        self.0 != 0
    }
}

impl IsZero for Int<i64> {
    fn is_zero(&self) -> (r: bool)
        ensures
            r == (self.0 == 0),
    {
        self.0 == 0
    }

    fn is_non_zero(&self) -> (r: bool)
        ensures
            r == (self.0 != 0),
    {
        self.0 != 0
    }
}

impl IsZero for Int<i128> {
    fn is_zero(&self) -> (r: bool)
        ensures
            r == (self.0 == 0),
    {
        self.0 == 0
    }

    fn is_non_zero(&self) -> (r: bool)
        ensures
            r == (self.0 != 0),
    {
        self.0 != 0
    }
}

impl IsZero for Int<U256> {
    fn is_zero(&self) -> (r: bool)
        ensures
            r == (self.0.value() == 0),
    {
        self.0.is_zero()
    }

    fn is_non_zero(&self) -> (r: bool)
        ensures
            r == (self.0.value() != 0),
    {
        !self.0.is_zero()
    }
}

impl IsZero for Int<I256> {
    fn is_zero(&self) -> (r: bool)
        ensures
            r == (self.0.value() == 0),
    {
        self.0.is_zero()
    }

    fn is_non_zero(&self) -> (r: bool)
        ensures
            r == (self.0.value() != 0),
    {
        !self.0.is_zero()
    }
}

} // verus!
