use vstd::prelude::*;
use crate::arith::{ceil_div, floor_div, lemma_pow10_18, lemma_pow10_24, lemma_pow10_6, lemma_round_from_tdiv, lemma_tdiv_trem, pow10, tdiv};
use crate::dec::Dec;
use crate::error::{MathError, MathResult};
use crate::int_types::Int;
use crate::number::Number;

verus! {

/// Rounding of a decimal to a whole number of units.
pub trait Decimal: Sized + Copy {
    fn checked_floor(self) -> MathResult<Self>;

    fn checked_ceil(self) -> MathResult<Self>;

    /// Replaces the value by the greatest whole number not above it; on an error it is left unchanged.
    fn checked_floor_assign(&mut self) -> (r: MathResult<()>)
        ensures
            r matches Ok(_) ==> call_ensures(Self::checked_floor, (*old(self),), Ok::<Self, MathError>(*final(self))),
            r matches Err(e) ==> *final(self) == *old(self) && call_ensures(Self::checked_floor, (*old(self),), Err::<Self, MathError>(e)),
    {
        match Self::checked_floor(*self) {
            Ok(v) => {
                *self = v;
                Ok(())
            },
            Err(e) => Err(e),
        }
    }

    /// Replaces the value by the least whole number not below it; on an error it is left unchanged.
    fn checked_ceil_assign(&mut self) -> (r: MathResult<()>)
        ensures
            r matches Ok(_) ==> call_ensures(Self::checked_ceil, (*old(self),), Ok::<Self, MathError>(*final(self))),
            r matches Err(e) ==> *final(self) == *old(self) && call_ensures(Self::checked_ceil, (*old(self),), Err::<Self, MathError>(e)),
    {
        match Self::checked_ceil(*self) {
            Ok(v) => {
                *self = v;
                Ok(())
            },
            Err(e) => Err(e),
        }
    }
}

impl Decimal for Dec<u128, 18> {
    /// The greatest whole number not above `self`.
    fn checked_floor(self) -> (r: MathResult<Self>)
        ensures
            r is Ok <==> u128::MIN <= floor_div(self.0.0 as int, pow10(18)) * pow10(18) && floor_div(self.0.0 as int, pow10(18)) * pow10(18) <= u128::MAX,
            r matches Ok(v) ==> v.0.0 == floor_div(self.0.0 as int, pow10(18)) * pow10(18),
            r matches Err(e) ==> e is OverflowSub,
    {
        let ghost a = self.0.0 as int;
        let ghost p = pow10(18);
        proof {
            lemma_pow10_18();
            lemma_tdiv_trem(a, p);
            lemma_round_from_tdiv(a, p);
            assert((tdiv(a, p) - 1) * p == tdiv(a, p) * p - p) by (nonlinear_arith);
            assert(tdiv(a, p) * p == p * tdiv(a, p)) by (nonlinear_arith);
        }
        let rem = match self.0.checked_rem(Int(1_000_000_000_000_000_000)) {
            Ok(v) => v,
            Err(_) => {
                return Ok(self);
            },
        };
        if rem.0 < 0 {
            match self.0.checked_sub(Int(1_000_000_000_000_000_000 + rem.0)) {
                Ok(v) => Ok(Dec(v)),
                Err(e) => Err(e),
            }
        } else if rem.0 > 0 {
            match self.0.checked_sub(rem) {
                Ok(v) => Ok(Dec(v)),
                Err(e) => Err(e),
            }
        } else {
            Ok(self)
        }
    }

    /// The least whole number not below `self`.
    fn checked_ceil(self) -> (r: MathResult<Self>)
        ensures
            r is Ok <==> u128::MIN <= ceil_div(self.0.0 as int, pow10(18)) * pow10(18) && ceil_div(self.0.0 as int, pow10(18)) * pow10(18) <= u128::MAX,
            r matches Ok(v) ==> v.0.0 == ceil_div(self.0.0 as int, pow10(18)) * pow10(18),
            r matches Err(e) ==> e is OverflowAdd,
    {
        let ghost a = self.0.0 as int;
        let ghost p = pow10(18);
        proof {
            lemma_pow10_18();
            lemma_tdiv_trem(a, p);
            lemma_round_from_tdiv(a, p);
            assert((tdiv(a, p) + 1) * p == tdiv(a, p) * p + p) by (nonlinear_arith);
            assert(tdiv(a, p) * p == p * tdiv(a, p)) by (nonlinear_arith);
        }
        let rem = match self.0.checked_rem(Int(1_000_000_000_000_000_000)) {
            Ok(v) => v,
            Err(_) => {
                return Ok(self);
            },
        };
        if rem.0 < 0 {
            match self.0.checked_sub(rem) {
                Ok(v) => Ok(Dec(v)),
                Err(_) => Ok(self),
            }
        } else if rem.0 > 0 {
            match self.0.checked_add(Int(1_000_000_000_000_000_000 - rem.0)) {
                Ok(v) => Ok(Dec(v)),
                Err(e) => Err(e),
            }
        } else {
            Ok(self)
        }
    }
}

impl Decimal for Dec<u128, 6> {
    /// The greatest whole number not above `self`.
    fn checked_floor(self) -> (r: MathResult<Self>)
        ensures
            r is Ok <==> u128::MIN <= floor_div(self.0.0 as int, pow10(6)) * pow10(6) && floor_div(self.0.0 as int, pow10(6)) * pow10(6) <= u128::MAX,
            r matches Ok(v) ==> v.0.0 == floor_div(self.0.0 as int, pow10(6)) * pow10(6),
            r matches Err(e) ==> e is OverflowSub,
    {
        let ghost a = self.0.0 as int;
        let ghost p = pow10(6);
        proof {
            lemma_pow10_6();
            lemma_tdiv_trem(a, p);
            lemma_round_from_tdiv(a, p);
            assert((tdiv(a, p) - 1) * p == tdiv(a, p) * p - p) by (nonlinear_arith);
            assert(tdiv(a, p) * p == p * tdiv(a, p)) by (nonlinear_arith);
        }
        let rem = match self.0.checked_rem(Int(1_000_000)) {
            Ok(v) => v,
            Err(_) => {
                return Ok(self);
            },
        };
        if rem.0 < 0 {
            match self.0.checked_sub(Int(1_000_000 + rem.0)) {
                Ok(v) => Ok(Dec(v)),
                Err(e) => Err(e),
            }
        } else if rem.0 > 0 {
            match self.0.checked_sub(rem) {
                Ok(v) => Ok(Dec(v)),
                Err(e) => Err(e),
            }
        } else {
            Ok(self)
        }
    }

    /// The least whole number not below `self`.
    fn checked_ceil(self) -> (r: MathResult<Self>)
        ensures
            r is Ok <==> u128::MIN <= ceil_div(self.0.0 as int, pow10(6)) * pow10(6) && ceil_div(self.0.0 as int, pow10(6)) * pow10(6) <= u128::MAX,
            r matches Ok(v) ==> v.0.0 == ceil_div(self.0.0 as int, pow10(6)) * pow10(6),
            r matches Err(e) ==> e is OverflowAdd,
    {
        let ghost a = self.0.0 as int;
        let ghost p = pow10(6);
        proof {
            lemma_pow10_6();
            lemma_tdiv_trem(a, p);
            lemma_round_from_tdiv(a, p);
            assert((tdiv(a, p) + 1) * p == tdiv(a, p) * p + p) by (nonlinear_arith);
            assert(tdiv(a, p) * p == p * tdiv(a, p)) by (nonlinear_arith);
        }
        let rem = match self.0.checked_rem(Int(1_000_000)) {
            Ok(v) => v,
            Err(_) => {
                return Ok(self);
            },
        };
        if rem.0 < 0 {
            match self.0.checked_sub(rem) {
                Ok(v) => Ok(Dec(v)),
                Err(_) => Ok(self),
            }
        } else if rem.0 > 0 {
            match self.0.checked_add(Int(1_000_000 - rem.0)) {
                Ok(v) => Ok(Dec(v)),
                Err(e) => Err(e),
            }
        } else {
            Ok(self)
        }
    }
}

impl Decimal for Dec<u128, 24> {
    /// The greatest whole number not above `self`.
    fn checked_floor(self) -> (r: MathResult<Self>)
        ensures
            r is Ok <==> u128::MIN <= floor_div(self.0.0 as int, pow10(24)) * pow10(24) && floor_div(self.0.0 as int, pow10(24)) * pow10(24) <= u128::MAX,
            r matches Ok(v) ==> v.0.0 == floor_div(self.0.0 as int, pow10(24)) * pow10(24),
            r matches Err(e) ==> e is OverflowSub,
    {
        let ghost a = self.0.0 as int;
        let ghost p = pow10(24);
        proof {
            lemma_pow10_24();
            lemma_tdiv_trem(a, p);
            lemma_round_from_tdiv(a, p);
            assert((tdiv(a, p) - 1) * p == tdiv(a, p) * p - p) by (nonlinear_arith);
            assert(tdiv(a, p) * p == p * tdiv(a, p)) by (nonlinear_arith);
        }
        let rem = match self.0.checked_rem(Int(1_000_000_000_000_000_000_000_000)) {
            Ok(v) => v,
            Err(_) => {
                return Ok(self);
            },
        };
        if rem.0 < 0 {
            match self.0.checked_sub(Int(1_000_000_000_000_000_000_000_000 + rem.0)) {
                Ok(v) => Ok(Dec(v)),
                Err(e) => Err(e),
            }
        } else if rem.0 > 0 {
            match self.0.checked_sub(rem) {
                Ok(v) => Ok(Dec(v)),
                Err(e) => Err(e),
            }
        } else {
            Ok(self)
        }
    }

    /// The least whole number not below `self`.
    fn checked_ceil(self) -> (r: MathResult<Self>)
        ensures
            r is Ok <==> u128::MIN <= ceil_div(self.0.0 as int, pow10(24)) * pow10(24) && ceil_div(self.0.0 as int, pow10(24)) * pow10(24) <= u128::MAX,
            r matches Ok(v) ==> v.0.0 == ceil_div(self.0.0 as int, pow10(24)) * pow10(24),
            r matches Err(e) ==> e is OverflowAdd,
    {
        let ghost a = self.0.0 as int;
        let ghost p = pow10(24);
        proof {
            lemma_pow10_24();
            lemma_tdiv_trem(a, p);
            lemma_round_from_tdiv(a, p);
            assert((tdiv(a, p) + 1) * p == tdiv(a, p) * p + p) by (nonlinear_arith);
            assert(tdiv(a, p) * p == p * tdiv(a, p)) by (nonlinear_arith);
        }
        let rem = match self.0.checked_rem(Int(1_000_000_000_000_000_000_000_000)) {
            Ok(v) => v,
            Err(_) => {
                return Ok(self);
            },
        };
        if rem.0 < 0 {
            match self.0.checked_sub(rem) {
                Ok(v) => Ok(Dec(v)),
                Err(_) => Ok(self),
            }
        } else if rem.0 > 0 {
            match self.0.checked_add(Int(1_000_000_000_000_000_000_000_000 - rem.0)) {
                Ok(v) => Ok(Dec(v)),
                Err(e) => Err(e),
            }
        } else {
            Ok(self)
        }
    }
}

impl Decimal for Dec<i128, 18> {
    /// The greatest whole number not above `self`.
    fn checked_floor(self) -> (r: MathResult<Self>)
        ensures
            r is Ok <==> i128::MIN <= floor_div(self.0.0 as int, pow10(18)) * pow10(18) && floor_div(self.0.0 as int, pow10(18)) * pow10(18) <= i128::MAX,
            r matches Ok(v) ==> v.0.0 == floor_div(self.0.0 as int, pow10(18)) * pow10(18),
            r matches Err(e) ==> e is OverflowSub,
    {
        let ghost a = self.0.0 as int;
        let ghost p = pow10(18);
        proof {
            lemma_pow10_18();
            lemma_tdiv_trem(a, p);
            lemma_round_from_tdiv(a, p);
            assert((tdiv(a, p) - 1) * p == tdiv(a, p) * p - p) by (nonlinear_arith);
            assert(tdiv(a, p) * p == p * tdiv(a, p)) by (nonlinear_arith);
        }
        let rem = match self.0.checked_rem(Int(1_000_000_000_000_000_000)) {
            Ok(v) => v,
            Err(_) => {
                return Ok(self);
            },
        };
        if rem.0 < 0 {
            match self.0.checked_sub(Int(1_000_000_000_000_000_000 + rem.0)) {
                Ok(v) => Ok(Dec(v)),
                Err(e) => Err(e),
            }
        } else if rem.0 > 0 {
            match self.0.checked_sub(rem) {
                Ok(v) => Ok(Dec(v)),
                Err(e) => Err(e),
            }
        } else {
            Ok(self)
        }
    }

    /// The least whole number not below `self`.
    fn checked_ceil(self) -> (r: MathResult<Self>)
        ensures
            r is Ok <==> i128::MIN <= ceil_div(self.0.0 as int, pow10(18)) * pow10(18) && ceil_div(self.0.0 as int, pow10(18)) * pow10(18) <= i128::MAX,
            r matches Ok(v) ==> v.0.0 == ceil_div(self.0.0 as int, pow10(18)) * pow10(18),
            r matches Err(e) ==> e is OverflowAdd,
    {
        let ghost a = self.0.0 as int;
        let ghost p = pow10(18);
        proof {
            lemma_pow10_18();
            lemma_tdiv_trem(a, p);
            lemma_round_from_tdiv(a, p);
            assert((tdiv(a, p) + 1) * p == tdiv(a, p) * p + p) by (nonlinear_arith);
            assert(tdiv(a, p) * p == p * tdiv(a, p)) by (nonlinear_arith);
        }
        let rem = match self.0.checked_rem(Int(1_000_000_000_000_000_000)) {
            Ok(v) => v,
            Err(_) => {
                return Ok(self);
            },
        };
        if rem.0 < 0 {
            match self.0.checked_sub(rem) {
                Ok(v) => Ok(Dec(v)),
                Err(_) => Ok(self),
            }
        } else if rem.0 > 0 {
            match self.0.checked_add(Int(1_000_000_000_000_000_000 - rem.0)) {
                Ok(v) => Ok(Dec(v)),
                Err(e) => Err(e),
            }
        } else {
            Ok(self)
        }
    }
}

} // verus!
