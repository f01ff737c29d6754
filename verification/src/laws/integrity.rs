//! What every operation keeps.

use soroban_sdk::Address;
use vstd::prelude::*;

use crate::config::MAX_FEE_BPS;
use crate::laws::index::{law_new_id_is_indexed, law_page_is_a_stretch_of_the_index};
use crate::laws::life::{
    law_opened_subscription_reads_back, law_schedule_does_not_drift, lemma_instance_symbols_differ,
};
use crate::ledger::{
    Key, Ledger, Value, KEY_PAYER_SUB, KEY_PAYER_SUB_COUNT, KEY_RECIPIENT_SUB,
    KEY_RECIPIENT_SUB_COUNT,
};
use crate::schedule::Subscription;
use crate::subscription::Readings;

verus! {

impl Subscription {
    /// What holds of a stored subscription at every time: its terms are in order, it has
    /// run no more often than its cap allows, it is inactive once the cap is reached, its
    /// first due time lies before its expiry, and no due time after the expiry was paid
    /// for.
    pub open spec fn sound(self) -> bool {
        &&& self.amount > 0
        &&& self.interval_seconds > 0
        &&& self.payer != self.recipient
        &&& self.max_executions is Some ==> {
            &&& self.executions_count <= self.max_executions->0
            &&& self.active ==> self.executions_count < self.max_executions->0
        }
        &&& self.first_due() >= 0
        &&& self.expiry_time is Some ==> {
            &&& self.first_due() < self.expiry_time->0
            &&& self.executions_count > 0 ==> self.next_execution_time - self.interval_seconds
                <= self.expiry_time->0
        }
    }
}

/// Whether ids come in rising order.
pub open spec fn rising(ids: Seq<u64>) -> bool {
    forall|i: int, j: int| 0 <= i < j < ids.len() ==> ids[i] < ids[j]
}

impl Ledger {
    /// Whether every stored subscription is sound and has an id that was given out.
    pub open spec fn subscriptions_sound(self) -> bool {
        forall|id: u64|
            (#[trigger] self.subscription(id)) is Some ==> {
                &&& 1 <= id <= self.last_id()
                &&& self.subscription(id)->0.sound()
            }
    }

    /// Whether the payers' indexes are in order: they list each payer's subscriptions, all
    /// of them, no other, and each once, in the order in which they were opened.
    pub open spec fn payers_indexed(self) -> bool {
        &&& forall|payer: Address|
            #![trigger self.opened_by(payer)]
            rising(self.opened_by(payer)) && forall|i: int|
                0 <= i < self.opened_by(payer).len() ==> {
                    &&& (#[trigger] self.subscription(self.opened_by(payer)[i])) is Some
                    &&& self.subscription(self.opened_by(payer)[i])->0.payer == payer
                }
        &&& forall|id: u64|
            (#[trigger] self.subscription(id)) is Some ==> self.opened_by(
                self.subscription(id)->0.payer,
            ).contains(id)
    }

    /// The same of the recipients' indexes.
    pub open spec fn recipients_indexed(self) -> bool {
        &&& forall|recipient: Address|
            #![trigger self.paying_to(recipient)]
            rising(self.paying_to(recipient)) && forall|i: int|
                0 <= i < self.paying_to(recipient).len() ==> {
                    &&& (#[trigger] self.subscription(self.paying_to(recipient)[i])) is Some
                    &&& self.subscription(self.paying_to(recipient)[i])->0.recipient == recipient
                }
        &&& forall|id: u64|
            (#[trigger] self.subscription(id)) is Some ==> self.paying_to(
                self.subscription(id)->0.recipient,
            ).contains(id)
    }

    /// What holds of the contract's storage at every time.
    pub open spec fn well_formed(self) -> bool {
        &&& self.config() is Some ==> self.config()->0.fee_bps <= MAX_FEE_BPS
        &&& self.subscriptions_sound()
        &&& self.indexes_complete()
        &&& self.payers_indexed()
        &&& self.recipients_indexed()
    }
}

/// Storage that nothing was written to is well-formed.
pub proof fn law_fresh_storage_is_well_formed(ledger: Ledger)
    requires
        ledger.entries == Map::<Key, Value>::empty(),
    ensures
        ledger.well_formed(),
{
}

/// Opening a subscription keeps the storage well-formed, as long as there are ids left.
pub proof fn law_creation_keeps_well_formed(ledger: Ledger, sub: Subscription, seen: Readings)
    requires
        ledger.well_formed(),
        sub.active,
        sub.executions_count == 0,
        sub.objection() is None ==> {
            &&& ledger.last_id() < u64::MAX
            &&& ledger.has_room(sub.payer, sub.recipient)
        },
    ensures
        ledger.creation(sub, seen).0.well_formed(),
{
    let after = ledger.creation(sub, seen).0;
    let id = ledger.next_id();
    if sub.objection() is Some {
        lemma_rewriting_keeps_well_formed(ledger, after);
    } else {
        law_opened_subscription_reads_back(ledger, sub, seen);
        law_new_id_is_indexed(ledger, sub, seen, sub.payer);
        assert(0 * sub.interval_seconds == 0);
        assert forall|j: u64| (#[trigger] after.subscription(j)) is Some implies {
            &&& 1 <= j <= after.last_id()
            &&& after.subscription(j)->0.sound()
        } by {
            assert(j != id ==> after.subscription(j) == ledger.subscription(j));
        }
        assert forall|payer: Address|
            #![trigger after.opened_by(payer)]
            rising(after.opened_by(payer)) && forall|i: int|
                0 <= i < after.opened_by(payer).len() ==> {
                    &&& (#[trigger] after.subscription(after.opened_by(payer)[i])) is Some
                    &&& after.subscription(after.opened_by(payer)[i])->0.payer == payer
                } by {
            law_new_id_is_indexed(ledger, sub, seen, payer);
            let old_ids = ledger.opened_by(payer);
            assert(rising(old_ids));
            assert forall|i: int| 0 <= i < after.opened_by(payer).len() implies {
                &&& (#[trigger] after.subscription(after.opened_by(payer)[i])) is Some
                &&& after.subscription(after.opened_by(payer)[i])->0.payer == payer
            } by {
                if i < old_ids.len() {
                    assert(ledger.subscription(old_ids[i]) is Some);
                    assert(old_ids[i] != id);
                }
            }
            assert forall|i: int, j: int| 0 <= i < j < after.opened_by(payer).len() implies
                after.opened_by(payer)[i] < after.opened_by(payer)[j] by {
                assert(ledger.subscription(old_ids[i]) is Some);
            }
        }
        assert forall|recipient: Address|
            #![trigger after.paying_to(recipient)]
            rising(after.paying_to(recipient)) && forall|i: int|
                0 <= i < after.paying_to(recipient).len() ==> {
                    &&& (#[trigger] after.subscription(after.paying_to(recipient)[i])) is Some
                    &&& after.subscription(after.paying_to(recipient)[i])->0.recipient == recipient
                } by {
            law_new_id_is_indexed(ledger, sub, seen, recipient);
            let old_ids = ledger.paying_to(recipient);
            assert(rising(old_ids));
            assert forall|i: int| 0 <= i < after.paying_to(recipient).len() implies {
                &&& (#[trigger] after.subscription(after.paying_to(recipient)[i])) is Some
                &&& after.subscription(after.paying_to(recipient)[i])->0.recipient == recipient
            } by {
                if i < old_ids.len() {
                    assert(ledger.subscription(old_ids[i]) is Some);
                    assert(old_ids[i] != id);
                }
            }
            assert forall|i: int, j: int| 0 <= i < j < after.paying_to(recipient).len() implies
                after.paying_to(recipient)[i] < after.paying_to(recipient)[j] by {
                assert(ledger.subscription(old_ids[i]) is Some);
            }
        }
        assert forall|j: u64| (#[trigger] after.subscription(j)) is Some implies after.opened_by(
            after.subscription(j)->0.payer,
        ).contains(j) && after.paying_to(after.subscription(j)->0.recipient).contains(j) by {
            let payer = after.subscription(j)->0.payer;
            let recipient = after.subscription(j)->0.recipient;
            law_new_id_is_indexed(ledger, sub, seen, payer);
            law_new_id_is_indexed(ledger, sub, seen, recipient);
            if j == id {
                assert(after.opened_by(payer).last() == id);
                assert(after.paying_to(recipient).last() == id);
            } else {
                assert(ledger.subscription(j) is Some);
                let a = choose|a: int|
                    0 <= a < ledger.opened_by(payer).len() && ledger.opened_by(payer)[a] == j;
                let b = choose|b: int|
                    0 <= b < ledger.paying_to(recipient).len() && ledger.paying_to(recipient)[b]
                        == j;
                assert(after.opened_by(payer)[a] == j);
                assert(after.paying_to(recipient)[b] == j);
            }
        }
    }
}

/// As long as there are ids left, the id of a new subscription was never given out before.
pub proof fn law_new_id_is_fresh(ledger: Ledger)
    requires
        ledger.well_formed(),
        ledger.last_id() < u64::MAX,
    ensures
        ledger.next_id() == ledger.last_id() + 1,
        ledger.subscription(ledger.next_id()) is None,
        forall|owner: Address| !(#[trigger] ledger.opened_by(owner)).contains(ledger.next_id()),
        forall|owner: Address| !(#[trigger] ledger.paying_to(owner)).contains(ledger.next_id()),
{
    let id = ledger.next_id();
    assert(ledger.subscription(id) is None);
    assert forall|owner: Address| !(#[trigger] ledger.opened_by(owner)).contains(id) by {
        if ledger.opened_by(owner).contains(id) {
            let i = choose|i: int|
                0 <= i < ledger.opened_by(owner).len() && ledger.opened_by(owner)[i] == id;
            assert(ledger.subscription(ledger.opened_by(owner)[i]) is Some);
        }
    }
    assert forall|owner: Address| !(#[trigger] ledger.paying_to(owner)).contains(id) by {
        if ledger.paying_to(owner).contains(id) {
            let i = choose|i: int|
                0 <= i < ledger.paying_to(owner).len() && ledger.paying_to(owner)[i] == id;
            assert(ledger.subscription(ledger.paying_to(owner)[i]) is Some);
        }
    }
}

/// A page lists only subscriptions of the address that it was asked for, and each of them
/// can be read.
pub proof fn law_pages_list_own_subscriptions(
    ledger: Ledger,
    owner: Address,
    start_index: u32,
    limit: u32,
)
    requires
        ledger.well_formed(),
    ensures
        ({
            let page = ledger.page(
                KEY_PAYER_SUB@,
                owner,
                start_index,
                limit,
                ledger.count(KEY_PAYER_SUB_COUNT@, owner),
            );
            forall|i: int|
                0 <= i < page.len() ==> {
                    &&& ledger.subscription(#[trigger] page[i]) is Some
                    &&& ledger.subscription(page[i])->0.payer == owner
                }
        }),
        ({
            let page = ledger.page(
                KEY_RECIPIENT_SUB@,
                owner,
                start_index,
                limit,
                ledger.count(KEY_RECIPIENT_SUB_COUNT@, owner),
            );
            forall|i: int|
                0 <= i < page.len() ==> {
                    &&& ledger.subscription(#[trigger] page[i]) is Some
                    &&& ledger.subscription(page[i])->0.recipient == owner
                }
        }),
{
    assert(ledger.complete(KEY_PAYER_SUB@, KEY_PAYER_SUB_COUNT@, owner));
    assert(ledger.complete(KEY_RECIPIENT_SUB@, KEY_RECIPIENT_SUB_COUNT@, owner));
    law_page_is_a_stretch_of_the_index(
        ledger,
        KEY_PAYER_SUB@,
        KEY_PAYER_SUB_COUNT@,
        owner,
        start_index,
        limit,
    );
    law_page_is_a_stretch_of_the_index(
        ledger,
        KEY_RECIPIENT_SUB@,
        KEY_RECIPIENT_SUB_COUNT@,
        owner,
        start_index,
        limit,
    );
    let sent = ledger.opened_by(owner);
    let received = ledger.paying_to(owner);
    assert(forall|i: int|
        0 <= i < sent.len() ==> (#[trigger] ledger.subscription(sent[i])) is Some
            && ledger.subscription(sent[i])->0.payer == owner);
    assert(forall|i: int|
        0 <= i < received.len() ==> (#[trigger] ledger.subscription(received[i])) is Some
            && ledger.subscription(received[i])->0.recipient == owner);
}

/// Cancelling, executing and keeping alive keep the storage well-formed, whatever they
/// answer.
pub proof fn law_operations_keep_well_formed(ledger: Ledger, id: u64, seen: Readings)
    requires
        ledger.well_formed(),
    ensures
        ledger.cancellation(id).0.well_formed(),
        ledger.execution(id, seen).0.well_formed(),
        ledger.upkeep(id, seen).0.well_formed(),
{
    if ledger.execution(id, seen).1 is Ok {
        law_schedule_does_not_drift(ledger, id, seen);
    }
    lemma_rewriting_keeps_well_formed(ledger, ledger.cancellation(id).0);
    lemma_rewriting_keeps_well_formed(ledger, ledger.execution(id, seen).0);
    lemma_rewriting_keeps_well_formed(ledger, ledger.upkeep(id, seen).0);
}

/// Configuring the contract keeps the storage well-formed: no fee rate above the ceiling
/// is ever stored. A refused rate leaves the configuration as it was.
pub proof fn law_configuring_keeps_well_formed(
    ledger: Ledger,
    admin: Address,
    fee_bps: u32,
    fee_collector: Address,
)
    requires
        ledger.well_formed(),
    ensures
        ledger.initialization(admin, fee_bps, fee_collector).0.well_formed(),
        ledger.fee_change(fee_bps).0.well_formed(),
        fee_bps > MAX_FEE_BPS ==> {
            &&& ledger.initialization(admin, fee_bps, fee_collector).1 is Err
            &&& ledger.initialization(admin, fee_bps, fee_collector).0.config() == ledger.config()
            &&& ledger.fee_change(fee_bps).1 is Err
            &&& ledger.fee_change(fee_bps).0.config() == ledger.config()
        },
{
    lemma_instance_symbols_differ();
    lemma_rewriting_keeps_well_formed(
        ledger,
        ledger.initialization(admin, fee_bps, fee_collector).0,
    );
    lemma_rewriting_keeps_well_formed(ledger, ledger.fee_change(fee_bps).0);
}

/// Storage stays well-formed when subscriptions are rewritten in place, each for the same
/// payer and recipient and soundly, and nothing else changes but the configuration, within
/// the ceiling.
proof fn lemma_rewriting_keeps_well_formed(before: Ledger, after: Ledger)
    requires
        before.well_formed(),
        after.config() is Some ==> after.config()->0.fee_bps <= MAX_FEE_BPS,
        after.last_id() == before.last_id(),
        forall|symbol: Seq<char>, owner: Address| #[trigger]
            after.count(symbol, owner) == before.count(symbol, owner),
        forall|symbol: Seq<char>, owner: Address, i: u32| #[trigger]
            after.listed(symbol, owner, i) == before.listed(symbol, owner, i),
        forall|id: u64|
            (#[trigger] after.subscription(id)) is Some <==> before.subscription(id) is Some,
        forall|id: u64|
            (#[trigger] after.subscription(id)) is Some ==> {
                &&& after.subscription(id)->0.sound()
                &&& after.subscription(id)->0.payer == before.subscription(id)->0.payer
                &&& after.subscription(id)->0.recipient == before.subscription(id)->0.recipient
            },
    ensures
        after.well_formed(),
{
    assert forall|owner: Address| #[trigger] after.opened_by(owner) == before.opened_by(owner) by {
        assert(after.opened_by(owner) =~= before.opened_by(owner));
    }
    assert forall|owner: Address| #[trigger] after.paying_to(owner) == before.paying_to(owner) by {
        assert(after.paying_to(owner) =~= before.paying_to(owner));
    }
    assert forall|owner: Address| #[trigger]
        after.complete(KEY_PAYER_SUB@, KEY_PAYER_SUB_COUNT@, owner) by {
        assert(before.complete(KEY_PAYER_SUB@, KEY_PAYER_SUB_COUNT@, owner));
    }
    assert forall|owner: Address| #[trigger]
        after.complete(KEY_RECIPIENT_SUB@, KEY_RECIPIENT_SUB_COUNT@, owner) by {
        assert(before.complete(KEY_RECIPIENT_SUB@, KEY_RECIPIENT_SUB_COUNT@, owner));
    }
}

} // verus!
