//! Laws of whole histories: what holds after any series of calls, to whatever operations
//! and with whatever arguments, from storage that nothing was written to.

use soroban_sdk::Address;
use vstd::prelude::*;

use crate::error::StellarSendError;
use crate::laws::bursts::same_terms;
use crate::laws::fees::law_fee_is_within_amount;
use crate::laws::index::lemma_index_symbols_differ;
use crate::laws::integrity::{
    law_configuring_keeps_well_formed, law_creation_keeps_well_formed,
    law_fresh_storage_is_well_formed, law_operations_keep_well_formed, rising,
};
use crate::laws::life::{
    law_opened_subscription_reads_back, lemma_instance_symbols_differ, pulled,
};
use crate::ledger::{
    Key, Ledger, Step, Value, KEY_PAYER_SUB_COUNT, KEY_RECIPIENT_SUB_COUNT,
};
use crate::schedule::Subscription;
use crate::subscription::Readings;

verus! {

/// An operation that can change the ledger, with its arguments. An operation that only
/// reads leaves it as it is and is not listed.
pub enum Operation {
    Initialize { admin: Address, fee_bps: u32, fee_collector: Address },
    SetFee { fee_bps: u32 },
    /// To open a subscription, given as it is stored where its terms are accepted.
    Create { sub: Subscription },
    Cancel { id: u64 },
    Execute { id: u64 },
    KeepAlive { id: u64 },
}

/// One call, with what the host tells in the course of it.
pub struct Call {
    pub operation: Operation,
    pub seen: Readings,
}

impl Ledger {
    /// The ledger after a call.
    pub open spec fn called(self, call: Call) -> Ledger {
        match call.operation {
            Operation::Initialize { admin, fee_bps, fee_collector } => self.initialization(
                admin,
                fee_bps,
                fee_collector,
            ).0,
            Operation::SetFee { fee_bps } => self.fee_change(fee_bps).0,
            Operation::Create { sub } => self.creation(sub, call.seen).0,
            Operation::Cancel { id } => self.cancellation(id).0,
            Operation::Execute { id } => self.execution(id, call.seen).0,
            Operation::KeepAlive { id } => self.upkeep(id, call.seen).0,
        }
    }

    /// Whether a call can be made: a new subscription is active and has not run, and where
    /// its terms are accepted there is an id left for it and room in its two indexes.
    pub open spec fn admits(self, call: Call) -> bool {
        match call.operation {
            Operation::Create { sub } => {
                &&& sub.active
                &&& sub.executions_count == 0
                &&& sub.objection() is None ==> {
                    &&& self.last_id() < u64::MAX
                    &&& self.has_room(sub.payer, sub.recipient)
                }
            },
            _ => true,
        }
    }

    /// The ledger after a series of calls.
    pub open spec fn after(self, calls: Seq<Call>) -> Ledger
        decreases calls.len(),
    {
        if calls.len() == 0 {
            self
        } else {
            self.after(calls.drop_last()).called(calls.last())
        }
    }

    /// Whether a series of calls can be made.
    pub open spec fn admits_all(self, calls: Seq<Call>) -> bool
        decreases calls.len(),
    {
        calls.len() > 0 ==> {
            &&& self.admits_all(calls.drop_last())
            &&& self.after(calls.drop_last()).admits(calls.last())
        }
    }

    /// Whether nothing was written to the storage yet.
    pub open spec fn fresh(self) -> bool {
        self.entries == Map::<Key, Value>::empty()
    }

    /// What the executions that are counted for a subscription have cost `payer`.
    pub open spec fn cost(self, id: u64, payer: Address) -> int {
        match self.subscription(id) {
            Some(sub) if sub.payer == payer => sub.executions_count * sub.amount,
            _ => 0,
        }
    }

    /// What the executions that are counted for the subscriptions up to `last` have cost
    /// `payer`.
    pub open spec fn total_cost(self, last: u64, payer: Address) -> int
        decreases last,
    {
        if last == 0 {
            0
        } else {
            self.total_cost((last - 1) as u64, payer) + self.cost(last, payer)
        }
    }
}

/// The subscriptions that a series of calls opens, in order.
pub open spec fn openings(calls: Seq<Call>) -> Seq<Subscription>
    decreases calls.len(),
{
    if calls.len() == 0 {
        Seq::empty()
    } else {
        match calls.last().operation {
            Operation::Create { sub } if sub.objection() is None => openings(
                calls.drop_last(),
            ).push(sub),
            _ => openings(calls.drop_last()),
        }
    }
}

/// Whether a call is an execution of the subscription `id` that succeeds.
pub open spec fn executes(ledger: Ledger, call: Call, id: u64) -> bool {
    call.operation == (Operation::Execute { id }) && ledger.execution(id, call.seen).1 is Ok
}

/// Whether a call is a cancellation of the subscription `id` that succeeds.
pub open spec fn cancels(ledger: Ledger, call: Call, id: u64) -> bool {
    call.operation == (Operation::Cancel { id }) && ledger.cancellation(id).1 is Ok
}

/// Whether a series of calls neither executes nor cancels the subscription `id`; attempts
/// that are refused do not count.
pub open spec fn spares(ledger: Ledger, calls: Seq<Call>, id: u64) -> bool
    decreases calls.len(),
{
    calls.len() > 0 ==> {
        let before = ledger.after(calls.drop_last());
        &&& spares(ledger, calls.drop_last(), id)
        &&& !executes(before, calls.last(), id)
        &&& !cancels(before, calls.last(), id)
    }
}

/// How many calls of a series execute the subscription `id`.
pub open spec fn executions(ledger: Ledger, calls: Seq<Call>, id: u64) -> nat
    decreases calls.len(),
{
    if calls.len() == 0 {
        0
    } else {
        executions(ledger, calls.drop_last(), id) + if executes(
            ledger.after(calls.drop_last()),
            calls.last(),
            id,
        ) {
            1nat
        } else {
            0nat
        }
    }
}

/// How many of the subscriptions were opened by `payer`.
pub open spec fn opened_count(subs: Seq<Subscription>, payer: Address) -> nat {
    subs.filter(|sub: Subscription| sub.payer == payer).len()
}

/// How many of the subscriptions pay `recipient`.
pub open spec fn paying_count(subs: Seq<Subscription>, recipient: Address) -> nat {
    subs.filter(|sub: Subscription| sub.recipient == recipient).len()
}

/// What a series of calls takes out of `payer`'s balance by executing the subscription
/// `id`.
pub open spec fn pulled_for(ledger: Ledger, calls: Seq<Call>, id: u64, payer: Address) -> int
    decreases calls.len(),
{
    if calls.len() == 0 {
        0
    } else {
        let before = ledger.after(calls.drop_last());
        pulled_for(ledger, calls.drop_last(), id, payer) + if calls.last().operation
            == (Operation::Execute { id }) {
            pulled(before.called(calls.last()).trace, payer) - pulled(before.trace, payer)
        } else {
            0
        }
    }
}

/// At every time of every history the storage is well-formed.
pub proof fn law_storage_is_always_well_formed(ledger: Ledger, calls: Seq<Call>)
    requires
        ledger.fresh() || ledger.well_formed(),
        ledger.admits_all(calls),
    ensures
        ledger.after(calls).well_formed(),
    decreases calls.len(),
{
    if calls.len() == 0 {
        if ledger.fresh() {
            law_fresh_storage_is_well_formed(ledger);
        }
    } else {
        law_storage_is_always_well_formed(ledger, calls.drop_last());
        lemma_call_keeps_well_formed(ledger.after(calls.drop_last()), calls.last());
    }
}

/// The subscriptions are numbered as they are opened: the first gets the id 1, the k-th
/// the id k. A request that is refused takes no id.
pub proof fn law_kth_opening_gets_id_k(ledger: Ledger, calls: Seq<Call>)
    requires
        ledger.fresh(),
        ledger.admits_all(calls),
    ensures
        ledger.after(calls).last_id() == openings(calls).len(),
        forall|id: u64|
            (#[trigger] ledger.after(calls).subscription(id)) is Some <==> 1 <= id
                <= openings(calls).len(),
        forall|sub: Subscription, seen: Readings|
            openings(calls).len() < u64::MAX && sub.objection() is None ==> (
            #[trigger] ledger.after(calls).creation(sub, seen)).1 == Ok::<u64, StellarSendError>(
                (openings(calls).len() + 1) as u64,
            ),
    decreases calls.len(),
{
    if calls.len() > 0 {
        let before = ledger.after(calls.drop_last());
        law_kth_opening_gets_id_k(ledger, calls.drop_last());
        lemma_call_changes(before, calls.last());
        assert forall|id: u64| (#[trigger] ledger.after(calls).subscription(id)) is Some <==> 1 <= id
            <= openings(calls).len() by {
            lemma_call_changes_at(before, calls.last(), id);
            assert(before.subscription(id) is Some <==> 1 <= id <= openings(
                calls.drop_last(),
            ).len());
        }
    }
}

/// A subscription keeps the terms on which it was opened, and its schedule never drifts:
/// at every time of every history the next due time is the first one, as it was asked
/// for, plus one interval for each execution.
pub proof fn law_schedule_is_kept(ledger: Ledger, calls: Seq<Call>, id: u64)
    requires
        ledger.fresh(),
        ledger.admits_all(calls),
        1 <= id <= openings(calls).len(),
    ensures
        ({
            let asked = openings(calls)[id - 1];
            let sub = ledger.after(calls).subscription(id)->0;
            &&& ledger.after(calls).subscription(id) is Some
            &&& same_terms(asked, sub)
            &&& sub.next_execution_time == asked.next_execution_time + sub.executions_count
                * asked.interval_seconds
        }),
    decreases calls.len(),
{
    let earlier = calls.drop_last();
    let before = ledger.after(earlier);
    law_kth_opening_gets_id_k(ledger, earlier);
    lemma_call_changes(before, calls.last());
    lemma_call_changes_at(before, calls.last(), id);
    if id <= openings(earlier).len() {
        law_schedule_is_kept(ledger, earlier, id);
        assert(openings(calls)[id - 1] == openings(earlier)[id - 1]);
        let sub = before.subscription(id)->0;
        assert((sub.executions_count + 1) * sub.interval_seconds == sub.executions_count
            * sub.interval_seconds + sub.interval_seconds) by (nonlinear_arith);
    } else {
        assert(0 * openings(calls)[id - 1].interval_seconds == 0);
    }
}

/// A subscription counts its executions: at every time of every history `executions_count`
/// is the number of calls that have executed it.
pub proof fn law_executions_are_counted(ledger: Ledger, calls: Seq<Call>, id: u64)
    requires
        ledger.fresh(),
        ledger.admits_all(calls),
    ensures
        1 <= id <= openings(calls).len() ==> ledger.after(calls).subscription(id) is Some
            && ledger.after(calls).subscription(id)->0.executions_count == executions(
            ledger,
            calls,
            id,
        ),
        !(1 <= id <= openings(calls).len()) ==> executions(ledger, calls, id) == 0,
    decreases calls.len(),
{
    if calls.len() > 0 {
        let earlier = calls.drop_last();
        let before = ledger.after(earlier);
        law_executions_are_counted(ledger, earlier, id);
        law_kth_opening_gets_id_k(ledger, earlier);
        lemma_call_changes(before, calls.last());
        lemma_call_changes_at(before, calls.last(), id);
        assert(before.subscription(id) is Some <==> 1 <= id <= openings(earlier).len());
    }
}

/// The two indexes count the subscriptions: at every time of every history the count of an
/// address is the number of subscriptions that it has opened, and of those that pay it.
pub proof fn law_openings_are_counted(ledger: Ledger, calls: Seq<Call>, owner: Address)
    requires
        ledger.fresh(),
        ledger.admits_all(calls),
    ensures
        ledger.after(calls).count(KEY_PAYER_SUB_COUNT@, owner) == opened_count(
            openings(calls),
            owner,
        ),
        ledger.after(calls).count(KEY_RECIPIENT_SUB_COUNT@, owner) == paying_count(
            openings(calls),
            owner,
        ),
    decreases calls.len(),
{
    reveal(Seq::filter);
    if calls.len() > 0 {
        law_openings_are_counted(ledger, calls.drop_last(), owner);
        lemma_index_symbols_differ();
        if let Operation::Create { sub } = calls.last().operation {
            if sub.objection() is None {
                assert(openings(calls).drop_last() =~= openings(calls.drop_last()));
                assert(openings(calls).last() == sub);
            }
        }
    }
}

/// Each subscription costs its payer the amount that was agreed on, once for each
/// execution that is counted, whatever else happens in between.
pub proof fn law_each_execution_costs_the_amount(ledger: Ledger, calls: Seq<Call>, id: u64)
    requires
        ledger.fresh(),
        ledger.admits_all(calls),
        1 <= id <= openings(calls).len(),
    ensures
        ledger.after(calls).subscription(id) is Some,
        pulled_for(ledger, calls, id, openings(calls)[id - 1].payer) == ledger.after(
            calls,
        ).subscription(id)->0.executions_count * openings(calls)[id - 1].amount,
    decreases calls.len(),
{
    law_schedule_is_kept(ledger, calls, id);
    let payer = openings(calls)[id - 1].payer;
    let earlier = calls.drop_last();
    let before = ledger.after(earlier);
    law_kth_opening_gets_id_k(ledger, earlier);
    law_storage_is_always_well_formed(ledger, earlier);
    lemma_call_changes(before, calls.last());
    lemma_call_changes_at(before, calls.last(), id);
    lemma_call_pulls(before, calls.last(), payer);
    if id <= openings(earlier).len() {
        law_each_execution_costs_the_amount(ledger, earlier, id);
        law_schedule_is_kept(ledger, earlier, id);
        assert(openings(calls)[id - 1] == openings(earlier)[id - 1]);
        let sub = before.subscription(id)->0;
        assert((sub.executions_count + 1) * sub.amount == sub.executions_count * sub.amount
            + sub.amount) by (nonlinear_arith);
    } else {
        lemma_nothing_is_pulled_beforehand(ledger, earlier, id, payer);
        assert(0 * openings(calls)[id - 1].amount == 0);
    }
}

/// All that is ever taken out of a payer's balance is the amounts of the executions that
/// are counted for that payer's subscriptions: nothing else is pulled, and from nobody
/// else.
pub proof fn law_payer_pays_for_own_executions_alone(
    ledger: Ledger,
    calls: Seq<Call>,
    payer: Address,
)
    requires
        ledger.fresh(),
        ledger.admits_all(calls),
    ensures
        pulled(ledger.after(calls).trace, payer) - pulled(ledger.trace, payer) == ledger.after(
            calls,
        ).total_cost(ledger.after(calls).last_id(), payer),
    decreases calls.len(),
{
    if calls.len() > 0 {
        let before = ledger.after(calls.drop_last());
        let end = ledger.after(calls);
        law_payer_pays_for_own_executions_alone(ledger, calls.drop_last(), payer);
        law_storage_is_always_well_formed(ledger, calls.drop_last());
        lemma_call_changes(before, calls.last());
        lemma_call_pulls(before, calls.last(), payer);
        assert forall|id: u64| 1 <= id <= before.last_id() && !(calls.last().operation == (
        Operation::Execute { id })) implies #[trigger] end.cost(id, payer) == before.cost(
            id,
            payer,
        ) by {
            lemma_call_changes_at(before, calls.last(), id);
        }
        let touched = match calls.last().operation {
            Operation::Execute { id } => id,
            _ => 0,
        };
        lemma_total_cost_moves(before, end, before.last_id(), touched, payer);
        if end.last_id() != before.last_id() {
            lemma_call_changes_at(before, calls.last(), end.last_id());
            assert(end.cost(end.last_id(), payer) == 0) by {
                assert(0 * end.subscription(end.last_id())->0.amount == 0);
            }
        }
        if touched > 0 {
            lemma_call_changes_at(before, calls.last(), touched);
            if before.subscription(touched) is Some {
                let sub = before.subscription(touched)->0;
                assert((sub.executions_count + 1) * sub.amount == sub.executions_count * sub.amount
                    + sub.amount) by (nonlinear_arith);
            }
        } else if calls.last().operation == (Operation::Execute { id: 0u64 }) {
            assert(before.subscription(0) is None);
        }
    } else {
        assert(ledger.last_id() == 0);
    }
}

/// What was opened can be read back as it was asked for until it is executed or
/// cancelled, whatever other calls are made and whatever attempts are refused.
pub proof fn law_opened_reads_back_until_touched(
    ledger: Ledger,
    sub: Subscription,
    seen: Readings,
    calls: Seq<Call>,
)
    requires
        ledger.well_formed(),
        ledger.admits(Call { operation: Operation::Create { sub }, seen }),
        sub.objection() is None,
        ledger.creation(sub, seen).0.admits_all(calls),
        spares(ledger.creation(sub, seen).0, calls, ledger.next_id()),
    ensures
        ledger.creation(sub, seen).1 == Ok::<u64, StellarSendError>(ledger.next_id()),
        ledger.creation(sub, seen).0.after(calls).subscription(ledger.next_id()) == Some(sub),
{
    let opened = ledger.creation(sub, seen).0;
    law_opened_subscription_reads_back(ledger, sub, seen);
    lemma_call_keeps_well_formed(ledger, Call { operation: Operation::Create { sub }, seen });
    law_untouched_subscription_stays(opened, calls, ledger.next_id());
}

/// A subscription stays as it is until it is executed or cancelled.
pub proof fn law_untouched_subscription_stays(ledger: Ledger, calls: Seq<Call>, id: u64)
    requires
        ledger.well_formed(),
        ledger.subscription(id) is Some,
        ledger.admits_all(calls),
        spares(ledger, calls, id),
    ensures
        ledger.after(calls).subscription(id) == ledger.subscription(id),
    decreases calls.len(),
{
    if calls.len() > 0 {
        let earlier = calls.drop_last();
        law_untouched_subscription_stays(ledger, earlier, id);
        law_storage_is_always_well_formed(ledger, earlier);
        lemma_call_changes_at(ledger.after(earlier), calls.last(), id);
    }
}

/// A subscription that is inactive stays as it is for good, whatever calls are made: it
/// is never reactivated and never charged again.
pub proof fn law_inactive_for_good(ledger: Ledger, calls: Seq<Call>, id: u64)
    requires
        ledger.well_formed(),
        ledger.subscription(id) is Some,
        !ledger.subscription(id)->0.active,
        ledger.admits_all(calls),
    ensures
        ledger.after(calls).subscription(id) == ledger.subscription(id),
        pulled_for(ledger, calls, id, ledger.subscription(id)->0.payer) == 0,
    decreases calls.len(),
{
    if calls.len() > 0 {
        let earlier = calls.drop_last();
        law_inactive_for_good(ledger, earlier, id);
        law_storage_is_always_well_formed(ledger, earlier);
        lemma_call_changes_at(ledger.after(earlier), calls.last(), id);
        lemma_call_pulls(
            ledger.after(earlier),
            calls.last(),
            ledger.subscription(id)->0.payer,
        );
    }
}

/// At every time of every history each id that was given out stands exactly once in its
/// payer's index and exactly once in its recipient's, and in nobody else's.
pub proof fn law_each_id_is_listed_once(
    ledger: Ledger,
    calls: Seq<Call>,
    id: u64,
    other: Address,
)
    requires
        ledger.fresh(),
        ledger.admits_all(calls),
        1 <= id <= openings(calls).len(),
    ensures
        ({
            let end = ledger.after(calls);
            let asked = openings(calls)[id - 1];
            let sent = end.opened_by(asked.payer);
            let received = end.paying_to(asked.recipient);
            &&& sent.contains(id) && sent.no_duplicates()
            &&& received.contains(id) && received.no_duplicates()
            &&& other != asked.payer ==> !end.opened_by(other).contains(id)
            &&& other != asked.recipient ==> !end.paying_to(other).contains(id)
        }),
{
    let end = ledger.after(calls);
    let asked = openings(calls)[id - 1];
    law_storage_is_always_well_formed(ledger, calls);
    law_schedule_is_kept(ledger, calls, id);
    assert(end.subscription(id) is Some);
    let sent = end.opened_by(asked.payer);
    let received = end.paying_to(asked.recipient);
    assert(rising(sent) && rising(received));
    assert(sent.no_duplicates());
    assert(received.no_duplicates());
    if end.opened_by(other).contains(id) {
        let ids = end.opened_by(other);
        let i = choose|i: int| 0 <= i < ids.len() && ids[i] == id;
        assert(end.subscription(ids[i])->0.payer == other);
    }
    if end.paying_to(other).contains(id) {
        let ids = end.paying_to(other);
        let i = choose|i: int| 0 <= i < ids.len() && ids[i] == id;
        assert(end.subscription(ids[i])->0.recipient == other);
    }
}

/// A call that can be made keeps the storage well-formed.
proof fn lemma_call_keeps_well_formed(ledger: Ledger, call: Call)
    requires
        ledger.well_formed(),
        ledger.admits(call),
    ensures
        ledger.called(call).well_formed(),
{
    match call.operation {
        Operation::Initialize { admin, fee_bps, fee_collector } => {
            law_configuring_keeps_well_formed(ledger, admin, fee_bps, fee_collector);
        },
        Operation::SetFee { fee_bps } => {
            law_configuring_keeps_well_formed(ledger, call.seen.own, fee_bps, call.seen.own);
        },
        Operation::Create { sub } => {
            law_creation_keeps_well_formed(ledger, sub, call.seen);
        },
        Operation::Cancel { id } => {
            law_operations_keep_well_formed(ledger, id, call.seen);
        },
        Operation::Execute { id } => {
            law_operations_keep_well_formed(ledger, id, call.seen);
        },
        Operation::KeepAlive { id } => {
            law_operations_keep_well_formed(ledger, id, call.seen);
        },
    }
}

/// Only opening a subscription takes an id.
proof fn lemma_call_changes(ledger: Ledger, call: Call)
    ensures
        ledger.called(call).last_id() == match call.operation {
            Operation::Create { sub } if sub.objection() is None => ledger.next_id(),
            _ => ledger.last_id(),
        },
{
    lemma_instance_symbols_differ();
}

/// What a call makes of the subscription `id`.
proof fn lemma_call_changes_at(ledger: Ledger, call: Call, id: u64)
    ensures
        ledger.called(call).subscription(id) == match call.operation {
            Operation::Create { sub } if sub.objection() is None && id == ledger.next_id() => Some(
                sub,
            ),
            Operation::Cancel { id: other } if other == id && ledger.cancellation(
                id,
            ).1 is Ok => Some(ledger.subscription(id)->0.cancelled()),
            Operation::Execute { id: other } if other == id && ledger.execution(
                id,
                call.seen,
            ).1 is Ok => ledger.subscription(id)->0.advanced(),
            _ => ledger.subscription(id),
        },
{
}

/// A call pulls nothing, unless it is an execution that succeeds: that pulls the amount
/// from the subscription's payer.
proof fn lemma_call_pulls(ledger: Ledger, call: Call, payer: Address)
    requires
        ledger.well_formed(),
    ensures
        pulled(ledger.called(call).trace, payer) - pulled(ledger.trace, payer)
            == match call.operation {
            Operation::Execute { id } if ledger.execution(id, call.seen).1 is Ok
                && ledger.subscription(id)->0.payer == payer => ledger.subscription(
                id,
            )->0.amount as int,
            _ => 0,
        },
{
    assert forall|l: Ledger, step: Step| pulled(#[trigger] l.noted(step).trace, payer) == pulled(
        l.trace,
        payer,
    ) + match step {
        Step::TransferFrom { from, amount, .. } if from == payer => amount as int,
        _ => 0,
    } by {
        assert(l.noted(step).trace.drop_last() =~= l.trace);
    }
    if let Operation::Execute { id } = call.operation {
        if ledger.execution(id, call.seen).1 is Ok {
            law_fee_is_within_amount(
                ledger.subscription(id)->0.amount as int,
                ledger.config()->0.fee_bps as int,
            );
        }
    }
}

/// Nothing is pulled for an id that was not given out.
proof fn lemma_nothing_is_pulled_beforehand(
    ledger: Ledger,
    calls: Seq<Call>,
    id: u64,
    payer: Address,
)
    requires
        ledger.fresh(),
        ledger.admits_all(calls),
        id > openings(calls).len(),
    ensures
        pulled_for(ledger, calls, id, payer) == 0,
    decreases calls.len(),
{
    if calls.len() > 0 {
        let earlier = calls.drop_last();
        lemma_nothing_is_pulled_beforehand(ledger, earlier, id, payer);
        law_kth_opening_gets_id_k(ledger, earlier);
        law_storage_is_always_well_formed(ledger, earlier);
        assert(ledger.after(earlier).subscription(id) is None);
        lemma_call_pulls(ledger.after(earlier), calls.last(), payer);
    }
}

/// Where the cost of one subscription alone changes, the total changes by as much.
proof fn lemma_total_cost_moves(
    before: Ledger,
    after: Ledger,
    last: u64,
    touched: u64,
    payer: Address,
)
    requires
        forall|id: u64|
            1 <= id <= last && id != touched ==> #[trigger] after.cost(id, payer) == before.cost(
                id,
                payer,
            ),
    ensures
        after.total_cost(last, payer) - before.total_cost(last, payer) == if 1 <= touched <= last {
            after.cost(touched, payer) - before.cost(touched, payer)
        } else {
            0
        },
    decreases last,
{
    if last > 0 {
        lemma_total_cost_moves(before, after, (last - 1) as u64, touched, payer);
    }
}

} // verus!
