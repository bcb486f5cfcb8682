use vstd::prelude::*;
use crate::int_types::Int;
use crate::wide::{I256, U256};

verus! {

/// Describes a number type that can be cast into a type of a bigger word
/// size without loss.
pub trait NextNumber {
    type Next;

    fn into_next(self) -> Self::Next;
}

impl NextNumber for Int<u64> {
    type Next = Int<u128>;

    fn into_next(self) -> (r: Int<u128>)
        ensures
            r.0 == self.0,
    {
        Int(self.0 as u128)
    }
}

impl NextNumber for Int<u128> {
    type Next = Int<U256>;

    fn into_next(self) -> (r: Int<U256>)
        ensures
            r.0.value() == self.0,
    {
        Int(U256::from_u128(self.0))
    }
}

impl NextNumber for Int<i64> {
    type Next = Int<i128>;

    fn into_next(self) -> (r: Int<i128>)
        ensures
            r.0 == self.0,
    {
        Int(self.0 as i128)
    }
}

impl NextNumber for Int<i128> {
    type Next = Int<I256>;

    fn into_next(self) -> (r: Int<I256>)
        ensures
            r.0.value() == self.0,
    {
        Int(I256::from_i128(self.0))
    }
}

} // verus!
