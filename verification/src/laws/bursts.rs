//! Laws of many attempts in a row: what a caller can make up for who comes late, and
//! what bounds it.

use vstd::prelude::*;

use crate::error::StellarSendError;
use crate::fee::{fee_overflows, BPS_DENOMINATOR};
use crate::laws::life::{law_payment_takes_the_gross_amount, pulled};
use crate::ledger::Ledger;
use crate::schedule::{max_of, Subscription};
use crate::subscription::Readings;

verus! {

/// The ledger after a series of attempts to execute a subscription.
pub open spec fn after_attempts(ledger: Ledger, id: u64, seen: Seq<Readings>) -> Ledger
    decreases seen.len(),
{
    if seen.len() == 0 {
        ledger
    } else {
        after_attempts(ledger, id, seen.drop_last()).execution(id, seen.last()).0
    }
}

/// Whether two states of a subscription have the same terms: they differ at most in what
/// a payment changes.
pub open spec fn same_terms(a: Subscription, b: Subscription) -> bool {
    &&& a.payer == b.payer
    &&& a.recipient == b.recipient
    &&& a.token == b.token
    &&& a.amount == b.amount
    &&& a.interval_seconds == b.interval_seconds
    &&& a.max_executions == b.max_executions
    &&& a.expiry_time == b.expiry_time
}

/// An attempt to execute keeps the terms and the configuration.
proof fn lemma_attempt_keeps_terms(ledger: Ledger, id: u64, seen: Readings)
    requires
        ledger.subscription(id) is Some,
    ensures
        ledger.execution(id, seen).0.subscription(id) is Some,
        same_terms(
            ledger.subscription(id)->0,
            ledger.execution(id, seen).0.subscription(id)->0,
        ),
        ledger.execution(id, seen).0.config() == ledger.config(),
{
}

/// However many attempts are made, at whatever times: the payer is charged the gross
/// amount once for each execution that is counted, and nothing else.
pub proof fn law_payer_is_charged_per_execution(ledger: Ledger, id: u64, seen: Seq<Readings>)
    requires
        ledger.subscription(id) is Some,
        ledger.subscription(id)->0.amount >= 0,
        ledger.config() is Some ==> ledger.config()->0.fee_bps <= BPS_DENOMINATOR,
    ensures
        ({
            let end = after_attempts(ledger, id, seen);
            let sub = ledger.subscription(id)->0;
            let charges = end.subscription(id)->0.executions_count - sub.executions_count;
            &&& end.subscription(id) is Some
            &&& same_terms(sub, end.subscription(id)->0)
            &&& end.config() == ledger.config()
            &&& 0 <= charges <= seen.len()
            &&& pulled(end.trace, sub.payer) - pulled(ledger.trace, sub.payer) == charges
                * sub.amount
        }),
    decreases seen.len(),
{
    let sub = ledger.subscription(id)->0;
    if seen.len() > 0 {
        law_payer_is_charged_per_execution(ledger, id, seen.drop_last());
        let before = after_attempts(ledger, id, seen.drop_last());
        let count = before.subscription(id)->0.executions_count - sub.executions_count;
        law_payment_takes_the_gross_amount(before, id, seen.last());
        lemma_attempt_keeps_terms(before, id, seen.last());
        assert((count + 1) * sub.amount == count * sub.amount + sub.amount) by (nonlinear_arith);
    } else {
        assert(0 * sub.amount == 0);
    }
}

/// A cap is a hard ceiling: however many attempts are made, at whatever times, no more
/// executions are counted than `max_executions`, and no more than the amount times the
/// executions that were left is taken from the payer. After the last one the
/// subscription is inactive.
pub proof fn law_cap_bounds_every_burst(ledger: Ledger, id: u64, seen: Seq<Readings>)
    requires
        ledger.subscription(id) is Some,
        ledger.subscription(id)->0.amount >= 0,
        ledger.subscription(id)->0.max_executions is Some,
        ledger.subscription(id)->0.executions_count
            <= ledger.subscription(id)->0.max_executions->0,
        ledger.subscription(id)->0.active ==> ledger.subscription(id)->0.executions_count
            < ledger.subscription(id)->0.max_executions->0,
        ledger.config() is Some ==> ledger.config()->0.fee_bps <= BPS_DENOMINATOR,
    ensures
        ({
            let end = after_attempts(ledger, id, seen);
            let sub = ledger.subscription(id)->0;
            let cap = sub.max_executions->0;
            &&& end.subscription(id) is Some
            &&& end.subscription(id)->0.executions_count <= cap
            &&& end.subscription(id)->0.active ==> end.subscription(id)->0.executions_count < cap
            &&& pulled(end.trace, sub.payer) - pulled(ledger.trace, sub.payer) <= (cap
                - sub.executions_count) * sub.amount
        }),
    decreases seen.len(),
{
    law_payer_is_charged_per_execution(ledger, id, seen);
    let end = after_attempts(ledger, id, seen);
    let sub = ledger.subscription(id)->0;
    let cap = sub.max_executions->0;
    if seen.len() > 0 {
        law_payer_is_charged_per_execution(ledger, id, seen.drop_last());
        law_cap_bounds_every_burst(ledger, id, seen.drop_last());
    }
    let charges = end.subscription(id)->0.executions_count - sub.executions_count;
    let left = cap - sub.executions_count;
    assert(charges * sub.amount <= left * sub.amount) by (nonlinear_arith)
        requires
            charges <= left,
            sub.amount >= 0,
    ;
}

/// An expiry bounds every burst too: however many attempts are made, at whatever times,
/// only due times up to the expiry are paid for. So no more executions are counted than
/// there are such due times, and no more than the amount times their number is
/// taken from the payer.
pub proof fn law_expiry_bounds_every_burst(ledger: Ledger, id: u64, seen: Seq<Readings>)
    requires
        ledger.subscription(id) is Some,
        ledger.subscription(id)->0.amount >= 0,
        ledger.subscription(id)->0.interval_seconds > 0,
        ledger.subscription(id)->0.expiry_time is Some,
        ledger.config() is Some ==> ledger.config()->0.fee_bps <= BPS_DENOMINATOR,
    ensures
        ({
            let end = after_attempts(ledger, id, seen);
            let sub = ledger.subscription(id)->0;
            let charges = end.subscription(id)->0.executions_count - sub.executions_count;
            let left = max_of(missed(sub, sub.expiry_time->0), 0);
            &&& end.subscription(id) is Some
            &&& end.subscription(id)->0.next_execution_time == sub.next_execution_time + charges
                * sub.interval_seconds
            &&& charges > 0 ==> sub.next_execution_time + (charges - 1) * sub.interval_seconds
                <= sub.expiry_time->0
            &&& charges <= left
            &&& pulled(end.trace, sub.payer) - pulled(ledger.trace, sub.payer) <= left * sub.amount
        }),
    decreases seen.len(),
{
    law_payer_is_charged_per_execution(ledger, id, seen);
    let end = after_attempts(ledger, id, seen);
    let sub = ledger.subscription(id)->0;
    let step = sub.interval_seconds as int;
    let charges = end.subscription(id)->0.executions_count - sub.executions_count;
    let left = max_of(missed(sub, sub.expiry_time->0), 0);
    if seen.len() > 0 {
        law_payer_is_charged_per_execution(ledger, id, seen.drop_last());
        law_expiry_bounds_every_burst(ledger, id, seen.drop_last());
        let before = after_attempts(ledger, id, seen.drop_last());
        let count = before.subscription(id)->0.executions_count - sub.executions_count;
        assert((count + 1) * step == count * step + step) by (nonlinear_arith);
    } else {
        assert(0 * step == 0);
    }
    if charges > 0 {
        let span = sub.expiry_time->0 - sub.next_execution_time;
        assert(charges - 1 <= span / step) by (nonlinear_arith)
            requires
                (charges - 1) * step <= span,
                step > 0,
        ;
    }
    assert(charges * sub.amount <= left * sub.amount) by (nonlinear_arith)
        requires
            charges <= left,
            sub.amount >= 0,
    ;
}

/// A caller who comes late can make up for every missed payment that the cap leaves
/// room for, and no more. A subscription that has not expired has one payment due for
/// its next due time and one for each whole interval since: so many attempts at one time
/// succeed one after the other, and each moves the due time by one interval. After the
/// last of them the next attempt is not due; where the cap was reached first, the
/// subscription is inactive.
pub proof fn law_catch_up(ledger: Ledger, id: u64, now: u64, seen: Seq<Readings>)
    requires
        ledger.subscription(id) is Some,
        ledger.subscription(id)->0.active,
        ledger.subscription(id)->0.interval_seconds > 0,
        ledger.subscription(id)->0.max_executions is Some ==> {
            &&& ledger.subscription(id)->0.executions_count
                < ledger.subscription(id)->0.max_executions->0
            &&& ledger.subscription(id)->0.executions_count + seen.len()
                <= ledger.subscription(id)->0.max_executions->0
        },
        ledger.subscription(id)->0.expiry_time is Some ==> now
            <= ledger.subscription(id)->0.expiry_time->0,
        ledger.subscription(id)->0.next_execution_time <= now,
        now + ledger.subscription(id)->0.interval_seconds <= u64::MAX,
        ledger.subscription(id)->0.executions_count + seen.len() <= u32::MAX,
        ledger.config() is Some,
        !fee_overflows(ledger.subscription(id)->0.amount, ledger.config()->0.fee_bps),
        forall|i: int| 0 <= i < seen.len() ==> (#[trigger] seen[i]).now == now,
        seen.len() <= missed(ledger.subscription(id)->0, now),
    ensures
        forall|i: int|
            0 <= i < seen.len() ==> (#[trigger] after_attempts(ledger, id, seen.take(i)).execution(
                id,
                seen[i],
            )).1 is Ok,
        ({
            let sub = ledger.subscription(id)->0;
            let end = after_attempts(ledger, id, seen);
            &&& end.subscription(id) is Some
            &&& end.subscription(id)->0.active <==> (sub.max_executions is None
                || sub.executions_count + seen.len() < sub.max_executions->0)
            &&& end.subscription(id)->0.executions_count == sub.executions_count + seen.len()
            &&& end.subscription(id)->0.next_execution_time == sub.next_execution_time + seen.len()
                * sub.interval_seconds
            &&& same_terms(sub, end.subscription(id)->0)
            &&& end.config() == ledger.config()
            &&& seen.len() == missed(sub, now) ==> forall|next: Readings|
                next.now == now ==> (#[trigger] end.execution(id, next)).1 == Err::<
                    i128,
                    StellarSendError,
                >(
                    if end.subscription(id)->0.active {
                        StellarSendError::SubscriptionNotDue
                    } else {
                        StellarSendError::SubscriptionInactive
                    },
                )
        }),
    decreases seen.len(),
{
    let sub = ledger.subscription(id)->0;
    let step = sub.interval_seconds as int;
    let n = seen.len() as int;
    let late = now - sub.next_execution_time;
    assert(late == step * (late / step) + late % step && 0 <= late % step < step)
        by (nonlinear_arith)
        requires
            step > 0,
    ;
    if n > 0 {
        let before = after_attempts(ledger, id, seen.drop_last());
        assert forall|i: int| 0 <= i < n - 1 implies (#[trigger] seen.drop_last()[i]).now == now by {
            assert(seen.drop_last()[i] == seen[i]);
        }
        law_catch_up(ledger, id, now, seen.drop_last());
        assert((n - 1) * step <= (late / step) * step) by (nonlinear_arith)
            requires
                n - 1 <= late / step,
                step > 0,
        ;
        assert((late / step) * step == step * (late / step)) by (nonlinear_arith);
        assert(n * step == (n - 1) * step + step) by (nonlinear_arith);
        let due = before.subscription(id)->0;
        assert(due.next_execution_time <= now);
        assert(seen.last() == seen[n - 1]);
        assert(before.execution(id, seen.last()).1 is Ok);
        assert forall|i: int| 0 <= i < n implies (#[trigger] after_attempts(
            ledger,
            id,
            seen.take(i),
        ).execution(id, seen[i])).1 is Ok by {
            if i < n - 1 {
                assert(seen.take(i) =~= seen.drop_last().take(i));
                assert(seen[i] == seen.drop_last()[i]);
                assert(after_attempts(ledger, id, seen.drop_last().take(i)).execution(
                    id,
                    seen.drop_last()[i],
                ).1 is Ok);
            } else {
                assert(seen.take(i) =~= seen.drop_last());
            }
        }
    } else {
        assert(0 * step == 0);
    }
    if n == missed(sub, now) {
        assert(n * step == (late / step) * step + step) by (nonlinear_arith)
            requires
                n == late / step + 1,
        ;
        assert((late / step) * step == step * (late / step)) by (nonlinear_arith);
    }
}

/// The number of payments that are due at time `now`: one for the next due time and one
/// for each whole interval since.
pub open spec fn missed(sub: Subscription, now: u64) -> int {
    (now - sub.next_execution_time) / (sub.interval_seconds as int) + 1
}

} // verus!
