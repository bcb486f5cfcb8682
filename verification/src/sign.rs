use vstd::prelude::*;
use crate::wide::{i256_checked_sub, i256_min, lemma_u256_range, I256, U256};
use crate::arith::abs;
use crate::error::{MathError, MathResult};
use crate::int_types::Int;
use crate::prim::{i128_checked_neg_call, i64_checked_neg_call, u128_checked_neg_call, u64_checked_neg_call};

verus! {

/// Describes a number that has a sign.
pub trait Sign: Sized + Copy {
    fn checked_abs(self) -> MathResult<Self>;

    /// Replaces the value by its absolute value; on an error it is left unchanged.
    fn checked_abs_assign(&mut self) -> (r: MathResult<()>)
        ensures
            r matches Ok(_) ==> call_ensures(Self::checked_abs, (*old(self),), Ok::<Self, MathError>(*final(self))),
            r matches Err(e) ==> *final(self) == *old(self) && call_ensures(Self::checked_abs, (*old(self),), Err::<Self, MathError>(e)),
    {
        match Self::checked_abs(*self) {
            Ok(v) => {
                *self = v;
                Ok(())
            },
            Err(e) => Err(e),
        }
    }

    fn is_negative(&self) -> bool;

    fn is_positive(&self) -> bool;

    fn is_non_negative(&self) -> bool;

    fn is_non_positive(&self) -> bool;

    fn checked_neg(self) -> MathResult<Self>;
}

impl Sign for Int<u64> {
    fn checked_abs(self) -> (r: MathResult<Self>)
        ensures
            r == Ok::<Self, MathError>(self),
    {
        Ok(self)
    }

    fn is_negative(&self) -> (r: bool)
        ensures
            r == (self.0 < 0),
    {
        false
    }

    fn is_positive(&self) -> (r: bool)
        ensures
            r == (self.0 > 0),
    {
        self.0 > 0
    }

    fn is_non_negative(&self) -> (r: bool)
        ensures
            r == (self.0 >= 0),
    {
        !self.is_negative()
    }

    fn is_non_positive(&self) -> (r: bool)
        ensures
            r == (self.0 <= 0),
    {
        !self.is_positive()
    }

    fn checked_neg(self) -> (r: MathResult<Self>)
        ensures
            r is Ok <==> self.0 == 0,
            r matches Ok(v) ==> v.0 == 0,
            r matches Err(e) ==> e is InvalidNegation,
    {
        match u64_checked_neg_call(self.0) {
            Some(v) => Ok(Int(v)),
            None => Err(MathError::InvalidNegation),
        }
    }
}

impl Sign for Int<u128> {
    fn checked_abs(self) -> (r: MathResult<Self>)
        ensures
            r == Ok::<Self, MathError>(self),
    {
        Ok(self)
    }

    fn is_negative(&self) -> (r: bool)
        ensures
            r == (self.0 < 0),
    {
        false
    }

    fn is_positive(&self) -> (r: bool)
        ensures
            r == (self.0 > 0),
    {
        self.0 > 0
    }

    fn is_non_negative(&self) -> (r: bool)
        ensures
            r == (self.0 >= 0),
    {
        !self.is_negative()
    }

    fn is_non_positive(&self) -> (r: bool)
        ensures
            r == (self.0 <= 0),
    {
        !self.is_positive()
    }

    fn checked_neg(self) -> (r: MathResult<Self>)
        ensures
            r is Ok <==> self.0 == 0,
            r matches Ok(v) ==> v.0 == 0,
            r matches Err(e) ==> e is InvalidNegation,
    {
        match u128_checked_neg_call(self.0) {
            Some(v) => Ok(Int(v)),
            None => Err(MathError::InvalidNegation),
        }
    }
}

impl Sign for Int<i64> {
    fn checked_abs(self) -> (r: MathResult<Self>)
        ensures
            r is Ok <==> self.0 != i64::MIN,
            r matches Ok(v) ==> v.0 == abs(self.0 as int),
            r matches Err(e) ==> e is OverflowConversion,
    {
        if self.0 == i64::MIN {
            Err(MathError::overflow_conversion::<i64, i64>(self.0))
        } else if self.0 < 0 {
            Ok(Int(-self.0))
        } else {
            Ok(self)
        }
    }

    fn is_negative(&self) -> (r: bool)
        ensures
            r == (self.0 < 0),
    {
        self.0 < 0
    }

    fn is_positive(&self) -> (r: bool)
        ensures
            r == (self.0 > 0),
    {
        self.0 > 0
    }

    fn is_non_negative(&self) -> (r: bool)
        ensures
            r == (self.0 >= 0),
    {
        !self.is_negative()
    }

    fn is_non_positive(&self) -> (r: bool)
        ensures
            r == (self.0 <= 0),
    {
        !self.is_positive()
    }

    fn checked_neg(self) -> (r: MathResult<Self>)
        ensures
            r is Ok <==> self.0 != i64::MIN,
            r matches Ok(v) ==> v.0 == -self.0,
            r matches Err(e) ==> e is OverflowNegation,
    {
        match i64_checked_neg_call(self.0) {
            Some(v) => Ok(Int(v)),
            None => Err(MathError::overflow_negation(self.0)),
        }
    }
}

impl Sign for Int<i128> {
    fn checked_abs(self) -> (r: MathResult<Self>)
        ensures
            r is Ok <==> self.0 != i128::MIN,
            r matches Ok(v) ==> v.0 == abs(self.0 as int),
            r matches Err(e) ==> e is OverflowConversion,
    {
        if self.0 == i128::MIN {
            Err(MathError::overflow_conversion::<i128, i128>(self.0))
        } else if self.0 < 0 {
            Ok(Int(-self.0))
        } else {
            Ok(self)
        }
    }

    fn is_negative(&self) -> (r: bool)
        ensures
            r == (self.0 < 0),
    {
        self.0 < 0
    }

    fn is_positive(&self) -> (r: bool)
        ensures
            r == (self.0 > 0),
    {
        self.0 > 0
    }

    fn is_non_negative(&self) -> (r: bool)
        ensures
            r == (self.0 >= 0),
    {
        !self.is_negative()
    }

    fn is_non_positive(&self) -> (r: bool)
        ensures
            r == (self.0 <= 0),
    {
        !self.is_positive()
    }

    fn checked_neg(self) -> (r: MathResult<Self>)
        ensures
            r is Ok <==> self.0 != i128::MIN,
            r matches Ok(v) ==> v.0 == -self.0,
            r matches Err(e) ==> e is OverflowNegation,
    {
        match i128_checked_neg_call(self.0) {
            Some(v) => Ok(Int(v)),
            None => Err(MathError::overflow_negation(self.0)),
        }
    }
}

impl Sign for Int<U256> {
    fn checked_abs(self) -> (r: MathResult<Self>)
        ensures
            r == Ok::<Self, MathError>(self),
    {
        Ok(self)
    }

    fn is_negative(&self) -> (r: bool)
        ensures
            r == (self.0.value() < 0),
    {
        proof {
            lemma_u256_range(self.0);
        }
        false
    }

    fn is_positive(&self) -> (r: bool)
        ensures
            r == (self.0.value() > 0),
    {
        proof {
            lemma_u256_range(self.0);
        }
        !self.0.is_zero()
    }

    fn is_non_negative(&self) -> (r: bool)
        ensures
            r == (self.0.value() >= 0),
    {
        proof {
            lemma_u256_range(self.0);
        }
        true
    }

    fn is_non_positive(&self) -> (r: bool)
        ensures
            r == (self.0.value() <= 0),
    {
        proof {
            lemma_u256_range(self.0);
        }
        self.0.is_zero()
    }

    fn checked_neg(self) -> (r: MathResult<Self>)
        ensures
            r is Ok <==> self.0.value() == 0,
            r matches Ok(v) ==> v.0.value() == 0,
            r matches Err(e) ==> e is InvalidNegation,
    {
        proof {
            lemma_u256_range(self.0);
        }
        if self.0.is_zero() {
            Ok(self)
        } else {
            Err(MathError::InvalidNegation)
        }
    }
}

impl Sign for Int<I256> {
    fn checked_abs(self) -> (r: MathResult<Self>)
        ensures
            r is Ok <==> self.0.value() != i256_min(),
            r matches Ok(v) ==> v.0.value() == abs(self.0.value()),
            r matches Err(e) ==> e is OverflowConversion,
    {
        if self.0.is_negative() {
            match i256_checked_sub(I256::zero(), self.0) {
                Some(v) => Ok(Int(v)),
                None => Err(MathError::overflow_conversion::<I256, I256>(self.0)),
            }
        } else {
            Ok(self)
        }
    }

    fn is_negative(&self) -> (r: bool)
        ensures
            r == (self.0.value() < 0),
    {
        self.0.is_negative()
    }

    fn is_positive(&self) -> (r: bool)
        ensures
            r == (self.0.value() > 0),
    {
        self.0.is_positive()
    }

    fn is_non_negative(&self) -> (r: bool)
        ensures
            r == (self.0.value() >= 0),
    {
        !self.0.is_negative()
    }

    fn is_non_positive(&self) -> (r: bool)
        ensures
            r == (self.0.value() <= 0),
    {
        !self.0.is_positive()
    }

    fn checked_neg(self) -> (r: MathResult<Self>)
        ensures
            r is Ok <==> self.0.value() != i256_min(),
            r matches Ok(v) ==> v.0.value() == -self.0.value(),
            r matches Err(e) ==> e is OverflowNegation,
    {
        match i256_checked_sub(I256::zero(), self.0) {
            Some(v) => Ok(Int(v)),
            None => Err(MathError::overflow_negation(self.0)),
        }
    }
}

} // verus!
