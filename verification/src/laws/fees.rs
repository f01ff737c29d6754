//! Laws of the fee.

use vstd::prelude::*;

use crate::fee::{fee_on, fee_overflows, BPS_DENOMINATOR};

verus! {

/// The fee is the exact share rounded up: it covers the share, and one unit less would
/// not.
pub proof fn law_fee_is_share_rounded_up(amount: int, fee_bps: int)
    requires
        amount >= 0,
        fee_bps >= 0,
    ensures
        fee_on(amount, fee_bps) * BPS_DENOMINATOR >= amount * fee_bps,
        (fee_on(amount, fee_bps) - 1) * BPS_DENOMINATOR < amount * fee_bps,
{
    assert(amount * fee_bps >= 0) by (nonlinear_arith)
        requires
            amount >= 0,
            fee_bps >= 0,
    ;
}

/// Whether `quotient` is a ten-thousandth of `whole`, rounded toward zero.
pub open spec fn rounds(quotient: int, whole: int) -> bool {
    if whole >= 0 {
        10_000 * quotient <= whole < 10_000 * (quotient + 1)
    } else {
        10_000 * (quotient - 1) < whole <= 10_000 * quotient
    }
}

/// The fee is a ten-thousandth of the amount times the rate, after one unit short of a whole
/// was added: for every amount and every rate, negative ones too.
pub proof fn law_fee_is_rounded(amount: int, fee_bps: int)
    ensures
        rounds(fee_on(amount, fee_bps), amount * fee_bps + 9_999),
{
}

/// A split fails exactly where the amount times the rate, or that with what rounds it up,
/// does not fit.
pub proof fn law_split_fails_where_it_does_not_fit(amount: i128, fee_bps: u32)
    ensures
        fee_overflows(amount, fee_bps) <==> !(i128::MIN <= amount * fee_bps && amount * fee_bps
            + 9_999 <= i128::MAX),
        amount >= 0 && fee_bps <= BPS_DENOMINATOR && amount <= 0x8000_0000_0000_0000_0000_0000_0000
            ==> !fee_overflows(amount, fee_bps),
{
    assert(amount >= 0 && fee_bps <= 10_000 && amount
        <= 0x8000_0000_0000_0000_0000_0000_0000 ==> 0 <= amount * fee_bps
        <= 10_000 * 0x8000_0000_0000_0000_0000_0000_0000) by (nonlinear_arith);
}

/// The fee never exceeds the amount, so the two legs of a payment are never negative,
/// and any rate above zero takes at least one unit of any amount above zero.
pub proof fn law_fee_is_within_amount(amount: int, fee_bps: int)
    requires
        amount >= 0,
        0 <= fee_bps <= BPS_DENOMINATOR,
    ensures
        0 <= fee_on(amount, fee_bps) <= amount,
        fee_bps == 0 ==> fee_on(amount, fee_bps) == 0,
        fee_bps > 0 && amount > 0 ==> fee_on(amount, fee_bps) >= 1,
{
    assert(0 <= amount * fee_bps <= amount * BPS_DENOMINATOR) by (nonlinear_arith)
        requires
            amount >= 0,
            0 <= fee_bps <= BPS_DENOMINATOR,
    ;
    assert(fee_bps == 0 ==> amount * fee_bps == 0);
    assert(fee_bps > 0 && amount > 0 ==> amount * fee_bps >= 1) by (nonlinear_arith);
}

/// Cutting a payment in two never saves on the fee.
pub proof fn law_splitting_saves_no_fee(first: int, second: int, fee_bps: int)
    requires
        first >= 0,
        second >= 0,
        fee_bps >= 0,
    ensures
        fee_on(first, fee_bps) + fee_on(second, fee_bps) >= fee_on(first + second, fee_bps),
{
    assert((first + second) * fee_bps == first * fee_bps + second * fee_bps) by (nonlinear_arith);
    assert(first * fee_bps >= 0 && second * fee_bps >= 0) by (nonlinear_arith)
        requires
            first >= 0,
            second >= 0,
            fee_bps >= 0,
    ;
}

} // verus!
