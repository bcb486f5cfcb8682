use vstd::prelude::*;
use crate::error::{MathError, MathResult};
use crate::int_types::Int;
use crate::wide::{I256, U256};

verus! {

/// Describes a number type that can be cast into a type of a smaller word
/// size, when the value fits.
pub trait PrevNumber {
    type Prev;

    fn checked_into_prev(self) -> MathResult<Self::Prev>;
}

impl PrevNumber for Int<u128> {
    type Prev = Int<u64>;

    fn checked_into_prev(self) -> (r: MathResult<Int<u64>>)
        ensures
            r is Ok <==> u64::MIN <= self.0 && self.0 <= u64::MAX,
            r matches Ok(v) ==> v.0 == self.0,
            r matches Err(e) ==> e is OverflowConversion,
    {
        if u64::MIN as u128 <= self.0 && self.0 <= u64::MAX as u128 {
            Ok(Int(self.0 as u64))
        } else {
            Err(MathError::overflow_conversion::<u128, u64>(self.0))
        }
    }
}

impl PrevNumber for Int<U256> {
    type Prev = Int<u128>;

    fn checked_into_prev(self) -> (r: MathResult<Int<u128>>)
        ensures
            r is Ok <==> u128::MIN <= self.0.value() && self.0.value() <= u128::MAX,
            r matches Ok(v) ==> v.0 == self.0.value(),
            r matches Err(e) ==> e is OverflowConversion,
    {
        match self.0.checked_into_u128() {
            Some(v) => Ok(Int(v)),
            None => Err(MathError::overflow_conversion::<U256, u128>(self.0)),
        }
    }
}

impl PrevNumber for Int<i128> {
    type Prev = Int<i64>;

    fn checked_into_prev(self) -> (r: MathResult<Int<i64>>)
        ensures
            r is Ok <==> i64::MIN <= self.0 && self.0 <= i64::MAX,
            r matches Ok(v) ==> v.0 == self.0,
            r matches Err(e) ==> e is OverflowConversion,
    {
        if i64::MIN as i128 <= self.0 && self.0 <= i64::MAX as i128 {
            Ok(Int(self.0 as i64))
        } else {
            Err(MathError::overflow_conversion::<i128, i64>(self.0))
        }
    }
}

impl PrevNumber for Int<I256> {
    type Prev = Int<i128>;

    fn checked_into_prev(self) -> (r: MathResult<Int<i128>>)
        ensures
            r is Ok <==> i128::MIN <= self.0.value() && self.0.value() <= i128::MAX,
            r matches Ok(v) ==> v.0 == self.0.value(),
            r matches Err(e) ==> e is OverflowConversion,
    {
        match self.0.checked_into_i128() {
            Some(v) => Ok(Int(v)),
            None => Err(MathError::overflow_conversion::<I256, i128>(self.0)),
        }
    }
}

} // verus!
