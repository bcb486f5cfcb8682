use vstd::prelude::*;
use crate::arith::{ceil_div, lemma_pow10_18, pow10};
use crate::dec::Udec128;
use crate::error::{MathError, MathResult};
use crate::fraction::MultiplyFraction;
use crate::int_types::{Int, Uint128};
use crate::number::Number;
use crate::laws::law_floor_ceil_bracket;

verus! {

/// The amount a stored balance or supply stands for: nothing stored is zero.
pub open spec fn stored_amount(stored: Option<Uint128>) -> int {
    match stored {
        Some(v) => v.0 as int,
        None => 0,
    }
}

/// `stored` matches the amount `amount`, as it would be kept in storage.
pub open spec fn stores(stored: Option<Uint128>, amount: int) -> bool {
    match stored {
        Some(v) => amount != 0 && v.0 == amount,
        None => amount == 0,
    }
}

/// A balance or supply after adding `amount`; a zero result is not stored.
pub fn increased_amount(stored: Option<Uint128>, amount: Uint128) -> (r: MathResult<Option<Uint128>>)
    ensures
        r is Ok <==> stored_amount(stored) + amount.0 <= u128::MAX,
        r matches Ok(v) ==> stores(v, stored_amount(stored) + amount.0),
        r matches Err(e) ==> e is OverflowAdd,
{
    let current = match stored {
        Some(v) => v,
        None => Int(0),
    };
    match current.checked_add(amount) {
        Ok(v) => {
            if v.0 == 0 {
                Ok(None)
            } else {
                Ok(Some(v))
            }
        },
        Err(e) => Err(e),
    }
}

/// A balance or supply after taking `amount` away; a zero result is not
/// stored.
pub fn decreased_amount(stored: Option<Uint128>, amount: Uint128) -> (r: MathResult<Option<Uint128>>)
    ensures
        r is Ok <==> amount.0 <= stored_amount(stored),
        r matches Ok(v) ==> stores(v, stored_amount(stored) - amount.0),
        r matches Err(e) ==> e is OverflowSub,
{
    let current = match stored {
        Some(v) => v,
        None => Int(0),
    };
    match current.checked_sub(amount) {
        Ok(v) => {
            if v.0 == 0 {
                Ok(None)
            } else {
                Ok(Some(v))
            }
        },
        Err(e) => Err(e),
    }
}

/// A denom's running supply while initial balances are summed, after adding
/// `by`: a denom not seen before starts at `by`, even when it is zero.
pub fn accumulated_supply(supply: Option<Uint128>, by: Uint128) -> (r: MathResult<Uint128>)
    ensures
        r is Ok <==> stored_amount(supply) + by.0 <= u128::MAX,
        r matches Ok(v) ==> v.0 == stored_amount(supply) + by.0,
        r matches Err(e) ==> e is OverflowAdd,
{
    match supply {
        None => Ok(by),
        Some(s) => s.checked_add(by),
    }
}

/// Moving `amount` from one balance to another keeps their sum: whatever the
/// sender loses, the receiver gains.
pub proof fn law_transfer_conserves(
    from: Option<Uint128>,
    to: Option<Uint128>,
    amount: Uint128,
    from_after: Option<Uint128>,
    to_after: Option<Uint128>,
)
    requires
        stores(from_after, stored_amount(from) - amount.0),
        stores(to_after, stored_amount(to) + amount.0),
    ensures
        stored_amount(from_after) + stored_amount(to_after) == stored_amount(from) + stored_amount(to),
{
}

/// The fee for `gas` units of gas at `rate` per unit, rounded up.
pub open spec fn fee_for(gas: int, rate: Udec128) -> int {
    ceil_div(gas * rate.0.0, pow10(18))
}

/// The most fee a transaction may cost: its gas limit at the fee rate,
/// rounded up; nothing when the transaction is only simulated.
pub fn fee_to_withhold(simulate: bool, gas_limit: u64, fee_rate: Udec128) -> (r: MathResult<Uint128>)
    ensures
        simulate ==> r == Ok::<Uint128, MathError>(Int(0)),
        !simulate ==> {
            &&& r is Ok <==> fee_for(gas_limit as int, fee_rate) <= u128::MAX
            &&& r matches Ok(v) ==> v.0 == fee_for(gas_limit as int, fee_rate)
            &&& r matches Err(e) ==> e is OverflowConversion
        },
{
    proof {
        lemma_pow10_18();
        let a = gas_limit * fee_rate.0.0;
        assert(a >= 0) by (nonlinear_arith)
            requires a == gas_limit * fee_rate.0.0, gas_limit >= 0, fee_rate.0.0 >= 0;
        assert((-a) / pow10(18) <= 0) by (nonlinear_arith)
            requires a >= 0, pow10(18) > 0;
    }
    if simulate {
        return Ok(Int(0));
    }
    Int(gas_limit as u128).checked_mul_dec_ceil(fee_rate)
}

/// What a finished transaction is charged, by the gas it used, and what is
/// given back of the fee withheld before it ran; nothing is charged when the
/// transaction was only simulated.
pub fn fee_settlement(simulate: bool, gas_used: u64, fee_rate: Udec128, withheld: Uint128) -> (r: MathResult<(Uint128, Uint128)>)
    ensures
        simulate ==> (r matches Ok((charge, refund)) && charge.0 == 0 && refund.0 == withheld.0),
        !simulate ==> {
            &&& r is Ok <==> fee_for(gas_used as int, fee_rate) <= u128::MAX
            &&& r matches Ok((charge, refund)) ==> charge.0 == fee_for(gas_used as int, fee_rate) && refund.0 == (
                if withheld.0 > charge.0 { withheld.0 - charge.0 } else { 0 })
            &&& r matches Err(e) ==> e is OverflowConversion
        },
{
    let charge = match fee_to_withhold(simulate, gas_used, fee_rate) {
        Ok(c) => c,
        Err(e) => {
            return Err(e);
        },
    };
    let refund = withheld.saturating_sub(charge);
    Ok((charge, refund))
}

/// The transfers that settle a finished transaction's fee: the charge goes
/// to the chain's owner and the refund back to the sender, each only when
/// it is not zero; a simulated transaction moves nothing.
pub fn fee_transfers(simulate: bool, charge: Uint128, refund: Uint128) -> (r: (Option<Uint128>, Option<Uint128>))
    ensures
        r == (if simulate {
            (None::<Uint128>, None::<Uint128>)
        } else {
            (
                if charge.0 != 0 { Some(charge) } else { None },
                if refund.0 != 0 { Some(refund) } else { None },
            )
        }),
{
    if simulate {
        return (None, None);
    }
    let to_owner = if charge.0 != 0 { Some(charge) } else { None };
    let to_sender = if refund.0 != 0 { Some(refund) } else { None };
    (to_owner, to_sender)
}

/// A transaction that uses no more gas than its limit is charged no more than
/// was withheld for it, so the refund is exactly the difference.
pub proof fn law_fee_settles_withheld(gas_used: int, gas_limit: int, rate: Udec128)
    requires
        0 <= gas_used <= gas_limit,
    ensures
        fee_for(gas_used, rate) <= fee_for(gas_limit, rate),
{
    lemma_pow10_18();
    let p = pow10(18);
    let a = gas_used * rate.0.0;
    let b = gas_limit * rate.0.0;
    assert(a <= b) by (nonlinear_arith)
        requires 0 <= gas_used <= gas_limit, rate.0.0 >= 0, a == gas_used * rate.0.0, b == gas_limit * rate.0.0;
    assert(ceil_div(a, p) <= ceil_div(b, p)) by (nonlinear_arith)
        requires a <= b, p > 0, ceil_div(a, p) == -((-a) / p), ceil_div(b, p) == -((-b) / p);
}

/// The fee is the gas times the rate rounded up to a whole unit: it covers
/// the exact cost and exceeds it by less than one unit, so no fraction of
/// the cost goes unpaid.
pub proof fn law_fee_rounds_up(gas: int, rate: Udec128)
    ensures
        fee_for(gas, rate) * pow10(18) >= gas * rate.0.0,
        fee_for(gas, rate) * pow10(18) < gas * rate.0.0 + pow10(18),
{
    lemma_pow10_18();
    law_floor_ceil_bracket(gas * rate.0.0, pow10(18));
}

} // verus!
