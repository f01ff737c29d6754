//! Laws of how long the stored entries last.

use vstd::prelude::*;

use crate::error::StellarSendError;
use crate::laws::operations::{enough, law_lifetime_is_well_chosen};
use crate::ledger::{Key, Ledger, KEY_SUB};
use crate::schedule::{
    Subscription, SUBSCRIPTION_TTL_LEDGER_SECONDS, SUBSCRIPTION_TTL_SAFETY_LEDGERS,
};
use crate::subscription::{lives_after, lives_opened, refreshed_lives, Readings};

verus! {

/// Whether a life of so many ledgers, counted from time `now`, is enough for `sub`: it
/// reaches past one interval, the next due time and the expiry, each with a day's cushion,
/// or it is at least what the network allows.
pub open spec fn lasts(life: u32, sub: Subscription, now: u64, max_ttl: u32) -> bool {
    let covered = (life - SUBSCRIPTION_TTL_SAFETY_LEDGERS) * SUBSCRIPTION_TTL_LEDGER_SECONDS;
    ||| life >= max_ttl
    ||| {
        &&& covered >= sub.interval_seconds
        &&& now + covered >= sub.next_execution_time
        &&& sub.expiry_time is Some ==> now + covered >= sub.expiry_time->0
    }
}

/// After a payment and after a request to keep it alive, the entry of a subscription lives
/// past its horizon as far as the network allows; its life is not shortened, and no other
/// entry's life changes.
pub proof fn law_refreshed_entry_lasts(
    lives: Map<Key, u32>,
    id: u64,
    sub: Subscription,
    seen: Readings,
)
    ensures
        ({
            let key = Key::Numbered(KEY_SUB@, id);
            let after = refreshed_lives(lives, id, sub, seen);
            &&& after[key] >= sub.ttl_target(seen.refreshed_at, seen.max_ttl)
            &&& lasts(after[key], sub, seen.refreshed_at, seen.max_ttl)
            &&& after[key] >= lives[key]
            &&& forall|k: Key| k != key ==> #[trigger] after[k] == lives[k]
        }),
{
}

/// The entry of a subscription that was opened lives past its horizon as far as the network
/// allows, and no entry that was there before has its life shortened.
pub proof fn law_opened_entry_lasts(
    before: Ledger,
    was: Map<Key, u32>,
    now: Map<Key, u32>,
    id: u64,
    sub: Subscription,
    seen: Readings,
)
    requires
        lives_opened(before, was, now, Ok::<u64, StellarSendError>(id), sub, seen),
    ensures
        lasts(now[Key::Numbered(KEY_SUB@, id)], sub, seen.refreshed_at, seen.max_ttl),
        forall|k: Key| before.entries.contains_key(k) ==> #[trigger] now[k] >= was[k],
{
    law_refreshed_entry_lasts(was, id, sub, seen);
}

/// After a payment and after a request to keep it alive, the entry of a subscription lives
/// past its horizon as far as the network allows; its life is not shortened, and is
/// lengthened by not a ledger more than that takes. No other entry's life changes, and a
/// request that is refused changes none.
pub proof fn law_refresh_lengthens_as_needed(
    succeeded: bool,
    lives: Map<Key, u32>,
    id: u64,
    sub: Subscription,
    seen: Readings,
)
    ensures
        ({
            let key = Key::Numbered(KEY_SUB@, id);
            let after = lives_after(succeeded, lives, id, sub, seen);
            &&& succeeded ==> {
                &&& lasts(after[key], sub, seen.refreshed_at, seen.max_ttl)
                &&& after[key] >= lives[key]
                &&& after[key] > lives[key] ==> after[key] <= seen.max_ttl && !enough(
                    after[key] - 1,
                    sub,
                    seen.refreshed_at,
                )
                &&& forall|k: Key| #![trigger after[k]]
                    #![trigger after.contains_key(k)]
                    k != key ==> after[k] == lives[k] && after.contains_key(k)
                        == lives.contains_key(k)
            }
            &&& !succeeded ==> after == lives
        }),
{
    law_lifetime_is_well_chosen(sub, seen.refreshed_at, seen.max_ttl);
}

/// The entry of a subscription that was opened lives past its horizon as far as the network
/// allows. Every other entry that was there before keeps its life, and an entry that the
/// subscription is written over has its life not shortened. A request that is refused
/// changes no life.
pub proof fn law_opening_keeps_other_lives(
    before: Ledger,
    was: Map<Key, u32>,
    now: Map<Key, u32>,
    answer: Result<u64, StellarSendError>,
    sub: Subscription,
    seen: Readings,
)
    requires
        lives_opened(before, was, now, answer, sub, seen),
    ensures
        answer matches Ok(id) ==> {
            let key = Key::Numbered(KEY_SUB@, id);
            &&& lasts(now[key], sub, seen.refreshed_at, seen.max_ttl)
            &&& before.entries.contains_key(key) ==> now[key] >= was[key]
            &&& forall|k: Key|
                before.entries.contains_key(k) && k != key ==> #[trigger] now[k] == was[k]
        },
        answer is Err ==> now == was,
{
    if let Ok(id) = answer {
        law_refresh_lengthens_as_needed(true, was, id, sub, seen);
    }
}

} // verus!
