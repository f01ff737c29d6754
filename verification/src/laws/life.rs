//! Laws of the life of a subscription, from its opening to its end.

use soroban_sdk::Address;
use vstd::prelude::*;

use crate::config::KEY_CONFIG;
use crate::error::StellarSendError;
use crate::fee::BPS_DENOMINATOR;
use crate::laws::fees::law_fee_is_within_amount;
use crate::ledger::{Key, Ledger, Step, KEY_SUB, KEY_SUB_SEQ};
use crate::schedule::{
    Subscription, SUBSCRIPTION_TTL_LEDGER_SECONDS, SUBSCRIPTION_TTL_SAFETY_LEDGERS,
};
use crate::subscription::Readings;

verus! {

/// The sum of the transfers out of `payer`'s balance that a trace records.
pub open spec fn pulled(trace: Seq<Step>, payer: Address) -> int
    decreases trace.len(),
{
    if trace.len() == 0 {
        0
    } else {
        pulled(trace.drop_last(), payer) + match trace.last() {
            Step::TransferFrom { from, amount, .. } if from == payer => amount as int,
            _ => 0,
        }
    }
}

impl Subscription {
    /// The due time of the first execution, counted back from the next one.
    pub open spec fn first_due(self) -> int {
        self.next_execution_time - self.executions_count * self.interval_seconds
    }
}

/// A subscription that was opened can be read back under the id that was returned, as
/// it was asked for; every other subscription, and the configuration, is as it was.
pub proof fn law_opened_subscription_reads_back(ledger: Ledger, sub: Subscription, seen: Readings)
    requires
        sub.objection() is None,
    ensures
        ledger.creation(sub, seen).1 == Ok::<u64, StellarSendError>(ledger.next_id()),
        ledger.creation(sub, seen).0.subscription(ledger.next_id()) == Some(sub),
        ledger.creation(sub, seen).0.last_id() == ledger.next_id(),
        forall|other: u64|
            other != ledger.next_id() ==> #[trigger] ledger.creation(sub, seen).0.subscription(
                other,
            ) == ledger.subscription(other),
        ledger.creation(sub, seen).0.config() == ledger.config(),
{
    lemma_instance_symbols_differ();
}

/// What is accepted can be paid at least once: at its first due time nothing speaks against
/// an execution.
pub proof fn law_accepted_terms_can_run(sub: Subscription)
    requires
        sub.objection() is None,
        sub.active,
    ensures
        sub.refusal(sub.next_execution_time) is None,
{
}

/// A refused request leaves the storage as it was, and at most an authorisation or the
/// time was asked for: nothing was paid, extended or published.
pub proof fn law_refusal_changes_nothing(
    ledger: Ledger,
    sub: Subscription,
    id: u64,
    seen: Readings,
)
    ensures
        ledger.creation(sub, seen).1 is Err ==> ledger.creation(sub, seen).0 == ledger.noted(
            Step::Authorized(sub.payer),
        ),
        ledger.cancellation(id).1 is Err ==> ledger.cancellation(id).0 == ledger || exists|
            payer: Address,
        | ledger.cancellation(id).0 == #[trigger] ledger.noted(Step::Authorized(payer)),
        ledger.execution(id, seen).1 is Err ==> ledger.execution(id, seen).0 == ledger
            || ledger.execution(id, seen).0 == ledger.noted(Step::Clock(seen.now)),
        ledger.upkeep(id, seen).1 is Err ==> ledger.upkeep(id, seen).0 == ledger,
{
}

/// Only the payer opens and cancels: neither succeeds before the host has confirmed the
/// payer's authorisation. Executing and keeping alive ask for nobody's.
pub proof fn law_payer_authorises(ledger: Ledger, sub: Subscription, id: u64, seen: Readings)
    ensures
        ledger.creation(sub, seen).1 is Ok ==> ledger.creation(sub, seen).0.trace[
            ledger.trace.len() as int] == Step::Authorized(sub.payer),
        ledger.cancellation(id).1 is Ok ==> ledger.subscription(id) is Some
            && ledger.cancellation(id).0.trace[ledger.trace.len() as int] == Step::Authorized(
            ledger.subscription(id)->0.payer,
        ),
        forall|i: int|
            ledger.trace.len() <= i < ledger.execution(id, seen).0.trace.len()
                ==> !((#[trigger] ledger.execution(id, seen).0.trace[i]) is Authorized),
        forall|i: int|
            ledger.trace.len() <= i < ledger.upkeep(id, seen).0.trace.len() ==> !((
            #[trigger] ledger.upkeep(id, seen).0.trace[i]) is Authorized),
{
}

/// Once cancelled, a subscription is never charged again: an attempt is answered with
/// `SubscriptionInactive`, at whatever time, and so is a second cancellation.
pub proof fn law_cancelled_is_never_charged(ledger: Ledger, id: u64, seen: Readings)
    requires
        ledger.cancellation(id).1 is Ok,
    ensures
        ledger.cancellation(id).0.execution(id, seen) == (
            ledger.cancellation(id).0,
            Err::<i128, StellarSendError>(StellarSendError::SubscriptionInactive),
        ),
        ledger.cancellation(id).0.cancellation(id).1 == Err::<(), StellarSendError>(
            StellarSendError::SubscriptionInactive,
        ),
{
}

/// What is inactive stays inactive: no operation reactivates a subscription. Opening one
/// is no exception unless the new subscription gets the same id, which takes a counter
/// that has run through all ids. Neither is configuring the contract.
pub proof fn law_inactive_stays_inactive(
    ledger: Ledger,
    id: u64,
    other: u64,
    new: Subscription,
    seen: Readings,
)
    requires
        ledger.subscription(id) is Some,
        !ledger.subscription(id)->0.active,
    ensures
        ledger.cancellation(other).0.subscription(id) == ledger.subscription(id),
        ledger.execution(other, seen).0.subscription(id) == ledger.subscription(id),
        ledger.upkeep(other, seen).0.subscription(id) == ledger.subscription(id),
        ledger.next_id() != id ==> ledger.creation(new, seen).0.subscription(id)
            == ledger.subscription(id),
        forall|admin: Address, fee_bps: u32, fee_collector: Address|
            (#[trigger] ledger.initialization(admin, fee_bps, fee_collector)).0.subscription(id)
                == ledger.subscription(id),
        forall|fee_bps: u32|
            (#[trigger] ledger.fee_change(fee_bps)).0.subscription(id) == ledger.subscription(id),
{
}

/// A payment moves the due time by exactly one interval, whenever it is made, and is
/// counted: the schedule never drifts.
pub proof fn law_schedule_does_not_drift(ledger: Ledger, id: u64, seen: Readings)
    requires
        ledger.execution(id, seen).1 is Ok,
    ensures
        ({
            let before = ledger.subscription(id)->0;
            let after = ledger.execution(id, seen).0.subscription(id)->0;
            &&& ledger.subscription(id) is Some
            &&& ledger.execution(id, seen).0.subscription(id) is Some
            &&& after.next_execution_time == before.next_execution_time + before.interval_seconds
            &&& after.executions_count == before.executions_count + 1
            &&& after.first_due() == before.first_due()
        }),
{
    let before = ledger.subscription(id)->0;
    assert((before.executions_count + 1) * before.interval_seconds == before.executions_count
        * before.interval_seconds + before.interval_seconds) by (nonlinear_arith);
}

/// A payment that is made before the interval after it has passed cannot be made
/// twice: the second attempt is not due, unless the subscription has reached its cap or
/// its expiry.
pub proof fn law_no_second_payment_in_an_interval(
    ledger: Ledger,
    id: u64,
    first: Readings,
    second: Readings,
)
    requires
        ledger.execution(id, first).1 is Ok,
        second.now < ledger.subscription(id)->0.next_execution_time
            + ledger.subscription(id)->0.interval_seconds,
    ensures
        ({
            let after = ledger.execution(id, first).0;
            let sub = after.subscription(id)->0;
            after.execution(id, second).1 == Err::<i128, StellarSendError>(
                if !sub.active {
                    StellarSendError::SubscriptionInactive
                } else if sub.expiry_time is Some && second.now > sub.expiry_time->0 {
                    StellarSendError::SubscriptionExpired
                } else {
                    StellarSendError::SubscriptionNotDue
                },
            )
        }),
{
}

/// Past its expiry an active subscription is answered with `SubscriptionExpired`, at every
/// such time, whether a payment is due or not, and stays as it is: active, and never
/// charged.
pub proof fn law_expired_is_refused_and_kept(ledger: Ledger, id: u64, seen: Readings)
    requires
        ledger.subscription(id) is Some,
        ledger.subscription(id)->0.active,
        ledger.subscription(id)->0.expiry_time is Some,
        seen.now > ledger.subscription(id)->0.expiry_time->0,
    ensures
        ledger.execution(id, seen) == (
            ledger.noted(Step::Clock(seen.now)),
            Err::<i128, StellarSendError>(StellarSendError::SubscriptionExpired),
        ),
        ledger.execution(id, seen).0.subscription(id) == ledger.subscription(id),
{
}

/// The payment that reaches the cap deactivates the subscription, as a cancellation
/// does; an earlier one leaves it active.
pub proof fn law_cap_deactivates(ledger: Ledger, id: u64, seen: Readings)
    requires
        ledger.execution(id, seen).1 is Ok,
    ensures
        ({
            let before = ledger.subscription(id)->0;
            let after = ledger.execution(id, seen).0.subscription(id)->0;
            after.active <==> (before.max_executions is None || after.executions_count
                < before.max_executions->0)
        }),
{
}

/// A payment takes exactly the gross amount out of the payer's balance, the fee and the
/// rest together; a refused attempt takes nothing.
pub proof fn law_payment_takes_the_gross_amount(ledger: Ledger, id: u64, seen: Readings)
    requires
        ledger.subscription(id) is Some,
        ledger.subscription(id)->0.amount >= 0,
        ledger.config() is Some ==> ledger.config()->0.fee_bps <= BPS_DENOMINATOR,
    ensures
        ({
            let sub = ledger.subscription(id)->0;
            pulled(ledger.execution(id, seen).0.trace, sub.payer) - pulled(ledger.trace, sub.payer)
                == if ledger.execution(id, seen).1 is Ok {
                sub.amount as int
            } else {
                0
            }
        }),
        ledger.execution(id, seen).1 matches Ok(net) ==> 0 <= net
            <= ledger.subscription(id)->0.amount,
{
    let sub = ledger.subscription(id)->0;
    assert forall|l: Ledger, step: Step| pulled(#[trigger] l.noted(step).trace, sub.payer) == pulled(
        l.trace,
        sub.payer,
    ) + match step {
        Step::TransferFrom { from, amount, .. } if from == sub.payer => amount as int,
        _ => 0,
    } by {
        assert(l.noted(step).trace.drop_last() =~= l.trace);
    }
    if ledger.execution(id, seen).1 is Ok {
        law_fee_is_within_amount(sub.amount as int, ledger.config()->0.fee_bps as int);
    }
}

/// The lifetime asked for is never more than the network allows. It reaches past one
/// interval, the next due time and the expiry, each with a day's cushion, unless the
/// network allows less: then it is the most that the network allows.
pub proof fn law_lifetime_covers_the_schedule(sub: Subscription, now: u64, max_ttl: u32)
    ensures
        0 <= sub.ttl_threshold(now, max_ttl) <= sub.ttl_target(now, max_ttl) <= max_ttl,
        sub.wanted_ttl(now) >= max_ttl ==> sub.ttl_target(now, max_ttl) == max_ttl,
        sub.wanted_ttl(now) <= max_ttl ==> {
            let covered = (sub.ttl_target(now, max_ttl) - SUBSCRIPTION_TTL_SAFETY_LEDGERS)
                * SUBSCRIPTION_TTL_LEDGER_SECONDS;
            &&& covered >= sub.interval_seconds
            &&& now + covered >= sub.next_execution_time
            &&& sub.expiry_time is Some ==> now + covered >= sub.expiry_time->0
        },
{
}

/// Opening, paying and keeping alive each ask the host that the entry of the
/// subscription, as it is stored afterwards, live for its lifetime.
pub proof fn law_entry_is_refreshed(ledger: Ledger, new: Subscription, id: u64, seen: Readings)
    ensures
        ledger.creation(new, seen).1 is Ok ==> asks_to_live(
            ledger,
            ledger.creation(new, seen).0,
            ledger.next_id(),
            seen,
        ),
        ledger.execution(id, seen).1 is Ok ==> asks_to_live(
            ledger,
            ledger.execution(id, seen).0,
            id,
            seen,
        ),
        ledger.upkeep(id, seen).1 is Ok ==> asks_to_live(
            ledger,
            ledger.upkeep(id, seen).0,
            id,
            seen,
        ),
{
    let l1 = ledger.creation(new, seen).0;
    let l2 = ledger.execution(id, seen).0;
    let l3 = ledger.upkeep(id, seen).0;
    assert(ledger.creation(new, seen).1 is Ok ==> l1.trace[l1.trace.len() - 2] == refresh_of(
        l1,
        ledger.next_id(),
        seen,
    ));
    assert(ledger.execution(id, seen).1 is Ok ==> l2.trace[l2.trace.len() - 2] == refresh_of(
        l2,
        id,
        seen,
    ));
    assert(ledger.upkeep(id, seen).1 is Ok ==> l3.trace[l3.trace.len() - 1] == refresh_of(
        l3,
        id,
        seen,
    ));
}

/// The request for the lifetime of the subscription that the ledger holds under `id`.
pub open spec fn refresh_of(ledger: Ledger, id: u64, seen: Readings) -> Step {
    let sub = ledger.subscription(id)->0;
    Step::ExtendTtl {
        key: Key::Numbered(KEY_SUB@, id),
        threshold: sub.ttl_threshold(seen.refreshed_at, seen.max_ttl) as u32,
        extend_to: sub.ttl_target(seen.refreshed_at, seen.max_ttl) as u32,
    }
}

/// Whether that request was made on the way from one ledger to the other.
pub open spec fn asks_to_live(before: Ledger, after: Ledger, id: u64, seen: Readings) -> bool {
    &&& after.subscription(id) is Some
    &&& exists|i: int|
        before.trace.len() <= i < after.trace.len() && #[trigger] after.trace[i] == refresh_of(
            after,
            id,
            seen,
        )
}

/// Keeping a subscription alive changes no entry.
pub proof fn law_upkeep_keeps_the_entries(ledger: Ledger, id: u64, seen: Readings)
    ensures
        ledger.upkeep(id, seen).0.entries == ledger.entries,
        ledger.subscription(id) is Some <==> ledger.upkeep(id, seen).1 is Ok,
{
}

/// The two instance entries stand under different symbols.
pub(crate) proof fn lemma_instance_symbols_differ()
    ensures
        KEY_SUB_SEQ@ != KEY_CONFIG@,
{
    reveal_strlit("SUB_SEQ");
    reveal_strlit("CONFIG");
    assert("SUB_SEQ"@.len() != "CONFIG"@.len());
}

} // verus!
