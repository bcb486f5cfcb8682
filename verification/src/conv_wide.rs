use vstd::prelude::*;
use crate::dec::Dec;
use crate::error::{MathError, MathResult};
use crate::int_types::Int;
use crate::next::NextNumber;
use crate::prev::PrevNumber;
use crate::signed::{Signed, Unsigned};
use crate::wide::{I256, U256};
use crate::wide512::{b256, I512, U512};

verus! {

impl<const S: u32> Signed for Dec<I256, S> {
    type Unsigned = Dec<U256, S>;

    fn checked_into_unsigned(self) -> (r: MathResult<Dec<U256, S>>)
        ensures
            r is Ok <==> self.0.0.value() >= 0,
            r matches Ok(v) ==> v.0.0.value() == self.0.0.value(),
            r matches Err(e) ==> e is OverflowConversion,
    {
        match self.0.checked_into_unsigned() {
            Ok(v) => Ok(Dec(v)),
            Err(e) => Err(e),
        }
    }
}

impl<const S: u32> Unsigned for Dec<U256, S> {
    type Signed = Dec<I256, S>;

    fn checked_into_signed(self) -> (r: MathResult<Dec<I256, S>>)
        ensures
            r is Ok <==> self.0.0.value() <= 0x7fff_ffff_ffff_ffff_ffff_ffff_ffff_ffff_ffff_ffff_ffff_ffff_ffff_ffff_ffff_ffffint,
            r matches Ok(v) ==> v.0.0.value() == self.0.0.value(),
            r matches Err(e) ==> e is OverflowConversion,
    {
        match self.0.checked_into_signed() {
            Ok(v) => Ok(Dec(v)),
            Err(e) => Err(e),
        }
    }
}

impl Signed for Int<I512> {
    type Unsigned = Int<U512>;

    fn checked_into_unsigned(self) -> (r: MathResult<Int<U512>>)
        ensures
            r is Ok <==> self.0.value() >= 0,
            r matches Ok(v) ==> v.0.value() == self.0.value(),
            r matches Err(e) ==> e is OverflowConversion,
    {
        if self.0.is_negative() {
            return Err(MathError::overflow_conversion::<I512, U512>(self.0));
        }
        Ok(Int(U512 { lo: self.0.lo, hi: self.0.hi }))
    }
}

impl Unsigned for Int<U512> {
    type Signed = Int<I512>;

    fn checked_into_signed(self) -> (r: MathResult<Int<I512>>)
        ensures
            r is Ok <==> self.0.value() < b256() * b256() / 2,
            r matches Ok(v) ==> v.0.value() == self.0.value(),
            r matches Err(e) ==> e is OverflowConversion,
    {
        let hi = self.0.hi;
        let lo = self.0.lo;
        proof {
            crate::wide::lemma_u256_range(lo);
            crate::wide::lemma_u256_range(hi);
            if hi.d3 >= 0x8000_0000_0000_0000 {
                assert(hi.value() >= b256() / 2);
                assert(lo.value() + hi.value() * b256() >= b256() * b256() / 2) by (nonlinear_arith)
                    requires
                        lo.value() >= 0,
                        hi.value() >= b256() / 2,
                        b256() % 2 == 0,
                        b256() > 0;
            } else {
                assert(hi.value() < b256() / 2);
                assert(lo.value() + hi.value() * b256() < b256() * b256() / 2) by (nonlinear_arith)
                    requires
                        0 <= lo.value() < b256(),
                        0 <= hi.value() < b256() / 2,
                        b256() % 2 == 0,
                        b256() > 0;
            }
        }
        if hi.d3 >= 0x8000_0000_0000_0000 {
            return Err(MathError::overflow_conversion::<U512, I512>(self.0));
        }
        Ok(Int(I512 { lo, hi }))
    }
}

impl<const S: u32> NextNumber for Dec<u64, S> {
    type Next = Dec<u128, S>;

    fn into_next(self) -> (r: Dec<u128, S>)
        ensures
            r.0.0 == self.0.0,
    {
        Dec(self.0.into_next())
    }
}

impl<const S: u32> NextNumber for Dec<u128, S> {
    type Next = Dec<U256, S>;

    fn into_next(self) -> (r: Dec<U256, S>)
        ensures
            r.0.0.value() == self.0.0,
    {
        Dec(self.0.into_next())
    }
}

impl<const S: u32> NextNumber for Dec<i64, S> {
    type Next = Dec<i128, S>;

    fn into_next(self) -> (r: Dec<i128, S>)
        ensures
            r.0.0 == self.0.0,
    {
        Dec(self.0.into_next())
    }
}

impl<const S: u32> NextNumber for Dec<i128, S> {
    type Next = Dec<I256, S>;

    fn into_next(self) -> (r: Dec<I256, S>)
        ensures
            r.0.0.value() == self.0.0,
    {
        Dec(self.0.into_next())
    }
}

impl<const S: u32> NextNumber for Dec<U256, S> {
    type Next = Dec<U512, S>;

    fn into_next(self) -> (r: Dec<U512, S>)
        ensures
            r.0.0.value() == self.0.0.value(),
    {
        Dec(self.0.into_next())
    }
}

impl<const S: u32> NextNumber for Dec<I256, S> {
    type Next = Dec<I512, S>;

    fn into_next(self) -> (r: Dec<I512, S>)
        ensures
            r.0.0.value() == self.0.0.value(),
    {
        Dec(self.0.into_next())
    }
}

impl PrevNumber for Dec<U256, 18> {
    type Prev = Dec<u128, 18>;

    fn checked_into_prev(self) -> (r: MathResult<Dec<u128, 18>>)
        ensures
            r is Ok <==> self.0.0.value() <= u128::MAX,
            r matches Ok(v) ==> v.0.0 == self.0.0.value(),
            r matches Err(e) ==> e is OverflowConversion,
    {
        proof {
            crate::wide::lemma_u256_range(self.0.0);
        }
        match self.0.checked_into_prev() {
            Ok(v) => Ok(Dec(v)),
            Err(e) => Err(e),
        }
    }
}

impl PrevNumber for Dec<I256, 18> {
    type Prev = Dec<i128, 18>;

    fn checked_into_prev(self) -> (r: MathResult<Dec<i128, 18>>)
        ensures
            r is Ok <==> i128::MIN <= self.0.0.value() <= i128::MAX,
            r matches Ok(v) ==> v.0.0 == self.0.0.value(),
            r matches Err(e) ==> e is OverflowConversion,
    {
        match self.0.checked_into_prev() {
            Ok(v) => Ok(Dec(v)),
            Err(e) => Err(e),
        }
    }
}

} // verus!
