use vstd::prelude::*;
use crate::arith::{lemma_pow10_18, lemma_pow10_24, lemma_pow10_6, pow10};
use crate::dec::Dec;
use crate::int_types::Int;
use crate::number_const::NumberConst;

verus! {

/// Describes a fixed-point decimal number.
pub trait FixedPoint<U>: Sized {
    /// Ratio between the inner integer value and the decimal value it
    /// represents: ten to the number of decimal places.
    #[allow(non_snake_case)]
    fn PRECISION() -> Int<U>;

    /// The smallest incremental value that can be represented.
    #[allow(non_snake_case)]
    fn TICK() -> Self;
}

impl FixedPoint<u128> for Dec<u128, 18> {
    fn PRECISION() -> (r: Int<u128>)
        ensures
            r.0 == pow10(18),
    {
        proof {
            lemma_pow10_18();
        }
        Int(1_000_000_000_000_000_000)
    }

    fn TICK() -> (r: Self)
        ensures
            r.0.0 == 1,
    {
        Dec(Int(1))
    }
}

impl NumberConst for Dec<u128, 18> {
    fn MIN() -> (r: Self)
        ensures
            r.0.0 == u128::MIN,
    {
        Dec(Int(u128::MIN))
    }

    fn MAX() -> (r: Self)
        ensures
            r.0.0 == u128::MAX,
    {
        Dec(Int(u128::MAX))
    }

    /// One whole unit.
    fn ONE() -> (r: Self)
        ensures
            r.0.0 == pow10(18),
    {
        proof {
            lemma_pow10_18();
        }
        Dec(Int(1_000_000_000_000_000_000))
    }

    /// Ten whole units.
    fn TEN() -> (r: Self)
        ensures
            r.0.0 == 10 * pow10(18),
    {
        proof {
            lemma_pow10_18();
        }
        Dec(Int(1_000_000_000_000_000_0000))
    }

    fn ZERO() -> (r: Self)
        ensures
            r.0.0 == 0,
    {
        Dec(Int(0))
    }
}

impl FixedPoint<u128> for Dec<u128, 6> {
    fn PRECISION() -> (r: Int<u128>)
        ensures
            r.0 == pow10(6),
    {
        proof {
            lemma_pow10_6();
        }
        Int(1_000_000)
    }

    fn TICK() -> (r: Self)
        ensures
            r.0.0 == 1,
    {
        Dec(Int(1))
    }
}

impl NumberConst for Dec<u128, 6> {
    fn MIN() -> (r: Self)
        ensures
            r.0.0 == u128::MIN,
    {
        Dec(Int(u128::MIN))
    }

    fn MAX() -> (r: Self)
        ensures
            r.0.0 == u128::MAX,
    {
        Dec(Int(u128::MAX))
    }

    /// One whole unit.
    fn ONE() -> (r: Self)
        ensures
            r.0.0 == pow10(6),
    {
        proof {
            lemma_pow10_6();
        }
        Dec(Int(1_000_000))
    }

    /// Ten whole units.
    fn TEN() -> (r: Self)
        ensures
            r.0.0 == 10 * pow10(6),
    {
        proof {
            lemma_pow10_6();
        }
        Dec(Int(1_000_0000))
    }

    fn ZERO() -> (r: Self)
        ensures
            r.0.0 == 0,
    {
        Dec(Int(0))
    }
}

impl FixedPoint<u128> for Dec<u128, 24> {
    fn PRECISION() -> (r: Int<u128>)
        ensures
            r.0 == pow10(24),
    {
        proof {
            lemma_pow10_24();
        }
        Int(1_000_000_000_000_000_000_000_000)
    }

    fn TICK() -> (r: Self)
        ensures
            r.0.0 == 1,
    {
        Dec(Int(1))
    }
}

impl NumberConst for Dec<u128, 24> {
    fn MIN() -> (r: Self)
        ensures
            r.0.0 == u128::MIN,
    {
        Dec(Int(u128::MIN))
    }

    fn MAX() -> (r: Self)
        ensures
            r.0.0 == u128::MAX,
    {
        Dec(Int(u128::MAX))
    }

    /// One whole unit.
    fn ONE() -> (r: Self)
        ensures
            r.0.0 == pow10(24),
    {
        proof {
            lemma_pow10_24();
        }
        Dec(Int(1_000_000_000_000_000_000_000_000))
    }

    /// Ten whole units.
    fn TEN() -> (r: Self)
        ensures
            r.0.0 == 10 * pow10(24),
    {
        proof {
            lemma_pow10_24();
        }
        Dec(Int(1_000_000_000_000_000_000_000_0000))
    }

    fn ZERO() -> (r: Self)
        ensures
            r.0.0 == 0,
    {
        Dec(Int(0))
    }
}

impl FixedPoint<i128> for Dec<i128, 18> {
    fn PRECISION() -> (r: Int<i128>)
        ensures
            r.0 == pow10(18),
    {
        proof {
            lemma_pow10_18();
        }
        Int(1_000_000_000_000_000_000)
    }

    fn TICK() -> (r: Self)
        ensures
            r.0.0 == 1,
    {
        Dec(Int(1))
    }
}

impl NumberConst for Dec<i128, 18> {
    fn MIN() -> (r: Self)
        ensures
            r.0.0 == i128::MIN,
    {
        Dec(Int(i128::MIN))
    }

    fn MAX() -> (r: Self)
        ensures
            r.0.0 == i128::MAX,
    {
        Dec(Int(i128::MAX))
    }

    /// One whole unit.
    fn ONE() -> (r: Self)
        ensures
            r.0.0 == pow10(18),
    {
        proof {
            lemma_pow10_18();
        }
        Dec(Int(1_000_000_000_000_000_000))
    }

    /// Ten whole units.
    fn TEN() -> (r: Self)
        ensures
            r.0.0 == 10 * pow10(18),
    {
        proof {
            lemma_pow10_18();
        }
        Dec(Int(1_000_000_000_000_000_0000))
    }

    fn ZERO() -> (r: Self)
        ensures
            r.0.0 == 0,
    {
        Dec(Int(0))
    }
}

} // verus!
