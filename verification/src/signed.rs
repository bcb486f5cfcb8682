use vstd::prelude::*;
use crate::dec::Dec;
use crate::error::{MathError, MathResult};
use crate::int_types::Int;
use crate::wide::{I256, U256};

verus! {

/// A signed number that can be turned into its unsigned counterpart when it
/// is not negative.
pub trait Signed: Sized {
    type Unsigned;

    fn checked_into_unsigned(self) -> MathResult<Self::Unsigned>;
}

/// An unsigned number that can be turned into its signed counterpart when
/// it fits.
pub trait Unsigned: Sized {
    type Signed;

    fn checked_into_signed(self) -> MathResult<Self::Signed>;
}

impl Signed for Int<i64> {
    type Unsigned = Int<u64>;

    fn checked_into_unsigned(self) -> (r: MathResult<Int<u64>>)
        ensures
            r is Ok <==> self.0 >= 0,
            r matches Ok(v) ==> v.0 == self.0,
            r matches Err(e) ==> e is OverflowConversion,
    {
        if self.0 < 0 {
            return Err(MathError::overflow_conversion::<i64, u64>(self.0));
        }
        Ok(Int(self.0 as u64))
    }
}

impl Unsigned for Int<u64> {
    type Signed = Int<i64>;

    fn checked_into_signed(self) -> (r: MathResult<Int<i64>>)
        ensures
            r is Ok <==> self.0 <= i64::MAX,
            r matches Ok(v) ==> v.0 == self.0,
            r matches Err(e) ==> e is OverflowConversion,
    {
        if self.0 > i64::MAX as u64 {
            return Err(MathError::overflow_conversion::<u64, i64>(self.0));
        }
        Ok(Int(self.0 as i64))
    }
}

impl<const S: u32> Signed for Dec<i64, S> {
    type Unsigned = Dec<u64, S>;

    fn checked_into_unsigned(self) -> (r: MathResult<Dec<u64, S>>)
        ensures
            r is Ok <==> self.0.0 >= 0,
            r matches Ok(v) ==> v.0.0 == self.0.0,
            r matches Err(e) ==> e is OverflowConversion,
    {
        match self.0.checked_into_unsigned() {
            Ok(v) => Ok(Dec(v)),
            Err(e) => Err(e),
        }
    }
}

impl<const S: u32> Unsigned for Dec<u64, S> {
    type Signed = Dec<i64, S>;

    fn checked_into_signed(self) -> (r: MathResult<Dec<i64, S>>)
        ensures
            r is Ok <==> self.0.0 <= i64::MAX,
            r matches Ok(v) ==> v.0.0 == self.0.0,
            r matches Err(e) ==> e is OverflowConversion,
    {
        match self.0.checked_into_signed() {
            Ok(v) => Ok(Dec(v)),
            Err(e) => Err(e),
        }
    }
}

impl Signed for Int<i128> {
    type Unsigned = Int<u128>;

    fn checked_into_unsigned(self) -> (r: MathResult<Int<u128>>)
        ensures
            r is Ok <==> self.0 >= 0,
            r matches Ok(v) ==> v.0 == self.0,
            r matches Err(e) ==> e is OverflowConversion,
    {
        if self.0 < 0 {
            return Err(MathError::overflow_conversion::<i128, u128>(self.0));
        }
        Ok(Int(self.0 as u128))
    }
}

impl Unsigned for Int<u128> {
    type Signed = Int<i128>;

    fn checked_into_signed(self) -> (r: MathResult<Int<i128>>)
        ensures
            r is Ok <==> self.0 <= i128::MAX,
            r matches Ok(v) ==> v.0 == self.0,
            r matches Err(e) ==> e is OverflowConversion,
    {
        if self.0 > i128::MAX as u128 {
            return Err(MathError::overflow_conversion::<u128, i128>(self.0));
        }
        Ok(Int(self.0 as i128))
    }
}

impl<const S: u32> Signed for Dec<i128, S> {
    type Unsigned = Dec<u128, S>;

    fn checked_into_unsigned(self) -> (r: MathResult<Dec<u128, S>>)
        ensures
            r is Ok <==> self.0.0 >= 0,
            r matches Ok(v) ==> v.0.0 == self.0.0,
            r matches Err(e) ==> e is OverflowConversion,
    {
        match self.0.checked_into_unsigned() {
            Ok(v) => Ok(Dec(v)),
            Err(e) => Err(e),
        }
    }
}

impl<const S: u32> Unsigned for Dec<u128, S> {
    type Signed = Dec<i128, S>;

    fn checked_into_signed(self) -> (r: MathResult<Dec<i128, S>>)
        ensures
            r is Ok <==> self.0.0 <= i128::MAX,
            r matches Ok(v) ==> v.0.0 == self.0.0,
            r matches Err(e) ==> e is OverflowConversion,
    {
        match self.0.checked_into_signed() {
            Ok(v) => Ok(Dec(v)),
            Err(e) => Err(e),
        }
    }
}

impl Signed for Int<I256> {
    type Unsigned = Int<U256>;

    fn checked_into_unsigned(self) -> (r: MathResult<Int<U256>>)
        ensures
            r is Ok <==> self.0.value() >= 0,
            r matches Ok(v) ==> v.0.value() == self.0.value(),
            r matches Err(e) ==> e is OverflowConversion,
    {
        if self.0.d3 >= 0x8000_0000_0000_0000 {
            return Err(MathError::overflow_conversion::<I256, U256>(self.0));
        }
        Ok(Int(U256 { d0: self.0.d0, d1: self.0.d1, d2: self.0.d2, d3: self.0.d3 }))
    }
}

impl Unsigned for Int<U256> {
    type Signed = Int<I256>;

    fn checked_into_signed(self) -> (r: MathResult<Int<I256>>)
        ensures
            r is Ok <==> self.0.value() <= 0x7fff_ffff_ffff_ffff_ffff_ffff_ffff_ffff_ffff_ffff_ffff_ffff_ffff_ffff_ffff_ffffint,
            r matches Ok(v) ==> v.0.value() == self.0.value(),
            r matches Err(e) ==> e is OverflowConversion,
    {
        if self.0.d3 >= 0x8000_0000_0000_0000 {
            return Err(MathError::overflow_conversion::<U256, I256>(self.0));
        }
        Ok(Int(I256 { d0: self.0.d0, d1: self.0.d1, d2: self.0.d2, d3: self.0.d3 }))
    }
}

} // verus!
