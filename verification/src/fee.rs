//! How a gross amount is split into the fee and what is left for the recipient.

use vstd::prelude::*;

use crate::error::StellarSendError;

verus! {

/// Basis points in a whole: a rate of `BPS_DENOMINATOR` is the full amount.
pub const BPS_DENOMINATOR: i128 = 10_000;

/// The quotient of `a` by the positive `b`, rounded toward zero.
pub open spec fn toward_zero(a: int, b: int) -> int {
    if a >= 0 {
        a / b
    } else {
        -((-a) / b)
    }
}

/// The fee on `amount` at `fee_bps` basis points: for an amount that is not
/// negative, the exact share rounded up to the next whole unit.
pub open spec fn fee_on(amount: int, fee_bps: int) -> int {
    toward_zero(amount * fee_bps + (BPS_DENOMINATOR - 1), BPS_DENOMINATOR as int)
}

/// Whether the product that the fee is taken from, with what is added to round
/// it up, lies outside `i128`.
pub open spec fn fee_overflows(amount: i128, fee_bps: u32) -> bool {
    ||| amount * fee_bps < i128::MIN
    ||| amount * fee_bps + (BPS_DENOMINATOR - 1) > i128::MAX
}

/// Splits `amount` into `(fee, net)` at `fee_bps` basis points. The fee is rounded
/// up, so a payment cannot be cut into pieces that each escape the fee.
pub fn split_fee(amount: i128, fee_bps: u32) -> (r: Result<(i128, i128), StellarSendError>)
    ensures
        fee_overflows(amount, fee_bps) <==> r is Err,
        r matches Err(e) ==> e == StellarSendError::ArithmeticOverflow,
        r matches Ok((fee, net)) ==> {
            &&& fee == fee_on(amount as int, fee_bps as int)
            &&& net == amount - fee
        },
{
    let product: i128 = match amount.checked_mul(fee_bps as i128) {
        Some(p) => p,
        None => return Err(StellarSendError::ArithmeticOverflow),
    };
    let rounded: i128 = match product.checked_add(BPS_DENOMINATOR - 1) {
        Some(s) => s,
        None => return Err(StellarSendError::ArithmeticOverflow),
    };
    let fee: i128 = rounded / BPS_DENOMINATOR;
    proof {
        lemma_product_sign(amount as int, fee_bps as int);
    }
    Ok((fee, amount - fee))
}

/// A product with a factor that is not negative has the sign of the other factor.
proof fn lemma_product_sign(amount: int, fee_bps: int)
    by (nonlinear_arith)
    requires
        fee_bps >= 0,
    ensures
        amount >= 0 ==> amount * fee_bps >= 0,
        amount <= 0 ==> amount * fee_bps <= 0,
{
}

} // verus!
