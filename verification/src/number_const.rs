use vstd::prelude::*;
use crate::wide::{i256_max, i256_min, u256_max, u256_min, I256, U256};
use crate::int_types::Int;

verus! {

/// Describes a number's distinguished values: minimum and maximum; zero, one
/// and ten.
#[allow(non_snake_case)]
pub trait NumberConst: Sized {
    fn MIN() -> Self;

    fn MAX() -> Self;

    fn ONE() -> Self;

    fn TEN() -> Self;

    fn ZERO() -> Self;
}

impl NumberConst for Int<u64> {
    fn MIN() -> (r: Self)
        ensures
            r.0 == u64::MIN,
    {
        Int(u64::MIN)
    }

    fn MAX() -> (r: Self)
        ensures
            r.0 == u64::MAX,
    {
        Int(u64::MAX)
    }

    fn ONE() -> (r: Self)
        ensures
            r.0 == 1,
    {
        Int(1)
    }

    fn TEN() -> (r: Self)
        ensures
            r.0 == 10,
    {
        Int(10)
    }

    fn ZERO() -> (r: Self)
        ensures
            r.0 == 0,
    {
        Int(0)
    }
}

impl NumberConst for Int<u128> {
    fn MIN() -> (r: Self)
        ensures
            r.0 == u128::MIN,
    {
        Int(u128::MIN)
    }

    fn MAX() -> (r: Self)
        ensures
            r.0 == u128::MAX,
    {
        Int(u128::MAX)
    }

    fn ONE() -> (r: Self)
        ensures
            r.0 == 1,
    {
        Int(1)
    }

    fn TEN() -> (r: Self)
        ensures
            r.0 == 10,
    {
        Int(10)
    }

    fn ZERO() -> (r: Self)
        ensures
            r.0 == 0,
    {
        Int(0)
    }
}

impl NumberConst for Int<i64> {
    fn MIN() -> (r: Self)
        ensures
            r.0 == i64::MIN,
    {
        Int(i64::MIN)
    }

    fn MAX() -> (r: Self)
        ensures
            r.0 == i64::MAX,
    {
        Int(i64::MAX)
    }

    fn ONE() -> (r: Self)
        ensures
            r.0 == 1,
    {
        Int(1)
    }

    fn TEN() -> (r: Self)
        ensures
            r.0 == 10,
    {
        Int(10)
    }

    fn ZERO() -> (r: Self)
        ensures
            r.0 == 0,
    {
        Int(0)
    }
}

impl NumberConst for Int<i128> {
    fn MIN() -> (r: Self)
        ensures
            r.0 == i128::MIN,
    {
        Int(i128::MIN)
    }

    fn MAX() -> (r: Self)
        ensures
            r.0 == i128::MAX,
    {
        Int(i128::MAX)
    }

    fn ONE() -> (r: Self)
        ensures
            r.0 == 1,
    {
        Int(1)
    }

    fn TEN() -> (r: Self)
        ensures
            r.0 == 10,
    {
        Int(10)
    }

    fn ZERO() -> (r: Self)
        ensures
            r.0 == 0,
    {
        Int(0)
    }
}

impl NumberConst for Int<U256> {
    fn MIN() -> (r: Self)
        ensures
            r.0.value() == u256_min(),
    {
        Int(U256::zero())
    }

    fn MAX() -> (r: Self)
        ensures
            r.0.value() == u256_max(),
    {
        Int(U256::max())
    }

    fn ONE() -> (r: Self)
        ensures
            r.0.value() == 1,
    {
        Int(U256::one())
    }

    fn TEN() -> (r: Self)
        ensures
            r.0.value() == 10,
    {
        Int(U256::from_u128(10))
    }

    fn ZERO() -> (r: Self)
        ensures
            r.0.value() == 0,
    {
        Int(U256::zero())
    }
}

impl NumberConst for Int<I256> {
    fn MIN() -> (r: Self)
        ensures
            r.0.value() == i256_min(),
    {
        Int(I256::min())
    }

    fn MAX() -> (r: Self)
        ensures
            r.0.value() == i256_max(),
    {
        Int(I256::max())
    }

    fn ONE() -> (r: Self)
        ensures
            r.0.value() == 1,
    {
        Int(I256::one())
    }

    fn TEN() -> (r: Self)
        ensures
            r.0.value() == 10,
    {
        Int(I256::from_i128(10))
    }

    fn ZERO() -> (r: Self)
        ensures
            r.0.value() == 0,
    {
        Int(I256::zero())
    }
}

} // verus!
