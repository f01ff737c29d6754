//! What each operation does, said of its arguments, its answer, the entries and the
//! exchanges with the host: when it succeeds, what every refusal means, what is written and
//! what is left alone, who is asked, who is paid and what is announced.

use soroban_sdk::Address;
use vstd::prelude::*;

use crate::config::{ContractConfig, KEY_CONFIG, MAX_FEE_BPS};
use crate::error::StellarSendError;
use crate::fee::{fee_on, BPS_DENOMINATOR};
use crate::laws::fees::{law_fee_is_rounded, law_fee_is_within_amount, rounds};
use crate::laws::index::lemma_index_symbols_differ;
use crate::laws::life::lemma_instance_symbols_differ;
use crate::ledger::{
    Event, Key, Ledger, Step, Value, KEY_PAYER_SUB, KEY_PAYER_SUB_COUNT, KEY_RECIPIENT_SUB,
    KEY_RECIPIENT_SUB_COUNT, KEY_SUB, KEY_SUB_SEQ,
};
use crate::schedule::{
    opened, terms_error, Execution, Subscription, SUBSCRIPTION_TTL_LEDGER_SECONDS,
    SUBSCRIPTION_TTL_SAFETY_LEDGERS,
};
use crate::subscription::{Readings, TOPIC_CANCELLED, TOPIC_CREATED, TOPIC_EXECUTED};

verus! {

/// The sum of the transfers in `token` from `from` to `to` that a trace records.
pub open spec fn delivered(trace: Seq<Step>, token: Address, from: Address, to: Address) -> int
    decreases trace.len(),
{
    if trace.len() == 0 {
        0
    } else {
        delivered(trace.drop_last(), token, from, to) + match trace.last() {
            Step::TransferFrom { token: t, spender: _, from: f, to: r, amount } if t == token
                && f == from && r == to => amount as int,
            _ => 0,
        }
    }
}

/// Whether so many ledgers from time `now` reach past one interval, the next due time and
/// the expiry of `sub`, after a day's cushion is set aside.
pub open spec fn enough(ledgers: int, sub: Subscription, now: u64) -> bool {
    let seconds = (ledgers - SUBSCRIPTION_TTL_SAFETY_LEDGERS) * SUBSCRIPTION_TTL_LEDGER_SECONDS;
    &&& seconds >= sub.interval_seconds
    &&& now + seconds >= sub.next_execution_time
    &&& sub.expiry_time is Some ==> now + seconds >= sub.expiry_time->0
}

/// Whether an extension of life is the right one for `sub` at time `now`: within the
/// network's maximum, enough unless that maximum is reached, not a ledger more than enough,
/// and due for every life that is shorter.
pub open spec fn well_chosen(
    extend_to: int,
    threshold: int,
    sub: Subscription,
    now: u64,
    max_ttl: u32,
) -> bool {
    &&& 0 <= extend_to <= max_ttl
    &&& extend_to < max_ttl ==> enough(extend_to, sub, now)
    &&& !enough(extend_to - 1, sub, now)
    &&& threshold == if extend_to > 0 {
        extend_to - 1
    } else {
        0
    }
}

/// Whether a step asks for the right extension of the life of `sub`, stored under `id`.
pub open spec fn extends_life(step: Step, id: u64, sub: Subscription, seen: Readings) -> bool {
    step matches Step::ExtendTtl { key, threshold, extend_to } && key == Key::Numbered(KEY_SUB@, id)
        && well_chosen(
        extend_to as int,
        threshold as int,
        sub,
        seen.refreshed_at,
        seen.max_ttl,
    )
}

/// The transfer of one leg of a payment, where there is anything to transfer.
pub open spec fn leg(
    token: Address,
    spender: Address,
    from: Address,
    to: Address,
    amount: i128,
) -> Seq<Step> {
    if amount > 0 {
        seq![Step::TransferFrom { token, spender, from, to, amount }]
    } else {
        Seq::empty()
    }
}

/// What is read is what is stored: a value is found exactly under its key, and a count or a
/// last id that is not stored is zero.
pub proof fn law_reading_finds_what_is_stored(
    ledger: Ledger,
    id: u64,
    sub: Subscription,
    config: ContractConfig,
    symbol: Seq<char>,
    owner: Address,
    position: u32,
    number: u64,
    count: u32,
)
    ensures
        ledger.subscription(id) == Some(sub) <==> ledger.entries.contains_key(
            Key::Numbered(KEY_SUB@, id),
        ) && ledger.entries[Key::Numbered(KEY_SUB@, id)] == Value::Subscription(sub),
        ledger.config() == Some(config) <==> ledger.entries.contains_key(
            Key::Instance(KEY_CONFIG@),
        ) && ledger.entries[Key::Instance(KEY_CONFIG@)] == Value::Config(config),
        ledger.listed(symbol, owner, position) == Some(number) <==> ledger.entries.contains_key(
            Key::Listed(symbol, owner, position),
        ) && ledger.entries[Key::Listed(symbol, owner, position)] == Value::Number(number),
        ledger.entries.contains_key(Key::Instance(KEY_SUB_SEQ@)) && ledger.entries[Key::Instance(
            KEY_SUB_SEQ@,
        )] == Value::Number(number) ==> ledger.last_id() == number,
        !ledger.entries.contains_key(Key::Instance(KEY_SUB_SEQ@)) ==> ledger.last_id() == 0,
        ledger.entries.contains_key(Key::Owned(symbol, owner)) && ledger.entries[Key::Owned(
            symbol,
            owner,
        )] == Value::Count(count) ==> ledger.count(symbol, owner) == count,
        !ledger.entries.contains_key(Key::Owned(symbol, owner)) ==> ledger.count(symbol, owner)
            == 0,
{
}

/// Terms are turned down for what is wrong with them, the first of it, and for nothing else.
pub proof fn law_terms_are_judged(
    amount: i128,
    interval_seconds: u64,
    self_payment: bool,
    start_time: u64,
    max_executions: Option<u32>,
    expiry_time: Option<u64>,
)
    ensures
        ({
            let answer = terms_error(
                amount,
                interval_seconds,
                self_payment,
                start_time,
                max_executions,
                expiry_time,
            );
            let lasts = forall|t: u64| expiry_time == Some(t) ==> t > start_time;
            &&& answer == Some(StellarSendError::InvalidAmount) <==> amount <= 0
            &&& answer == Some(StellarSendError::InvalidInterval) <==> amount > 0
                && interval_seconds == 0
            &&& answer == Some(StellarSendError::SelfPaymentNotAllowed) <==> amount > 0
                && interval_seconds > 0 && self_payment
            &&& answer == Some(StellarSendError::InvalidMaxExecutions) <==> amount > 0
                && interval_seconds > 0 && !self_payment && max_executions == Some(0u32)
            &&& answer == Some(StellarSendError::InvalidExpiry) <==> amount > 0 && interval_seconds
                > 0 && !self_payment && max_executions != Some(0u32) && !lasts
            &&& answer is None <==> amount > 0 && interval_seconds > 0 && !self_payment
                && max_executions != Some(0u32) && lasts
        }),
{
    if expiry_time is Some {
        assert(expiry_time == Some(expiry_time->0));
    }
}

/// A request to open a subscription succeeds exactly on acceptable terms, and is otherwise
/// told what is wrong with them. It gets the id after the last one.
pub proof fn law_opening_is_answered(
    ledger: Ledger,
    payer: Address,
    recipient: Address,
    token: Address,
    amount: i128,
    interval_seconds: u64,
    start_time: u64,
    max_executions: Option<u32>,
    expiry_time: Option<u64>,
    seen: Readings,
)
    ensures
        ({
            let sub = opened(
                payer,
                recipient,
                token,
                amount,
                interval_seconds,
                start_time,
                max_executions,
                expiry_time,
            );
            let answer = ledger.creation(sub, seen).1;
            let lasts = forall|t: u64| expiry_time == Some(t) ==> t > start_time;
            &&& answer is Ok <==> amount > 0 && interval_seconds > 0 && payer != recipient
                && max_executions != Some(0u32) && lasts
            &&& answer matches Ok(id) ==> id == if ledger.last_id() == u64::MAX {
                0
            } else {
                ledger.last_id() + 1
            }
            &&& answer == Err::<u64, StellarSendError>(StellarSendError::InvalidAmount) <==> amount
                <= 0
            &&& answer == Err::<u64, StellarSendError>(StellarSendError::InvalidInterval)
                <==> amount > 0 && interval_seconds == 0
            &&& answer == Err::<u64, StellarSendError>(StellarSendError::SelfPaymentNotAllowed)
                <==> amount > 0 && interval_seconds > 0 && payer == recipient
            &&& answer == Err::<u64, StellarSendError>(StellarSendError::InvalidMaxExecutions)
                <==> amount > 0 && interval_seconds > 0 && payer != recipient && max_executions
                == Some(0u32)
            &&& answer == Err::<u64, StellarSendError>(StellarSendError::InvalidExpiry) <==> amount
                > 0 && interval_seconds > 0 && payer != recipient && max_executions != Some(0u32)
                && !lasts
        }),
{
    law_terms_are_judged(
        amount,
        interval_seconds,
        payer == recipient,
        start_time,
        max_executions,
        expiry_time,
    );
}

/// A subscription is stored on the terms that were asked for, every one of them as it was
/// given; it is active and has not run. Besides, its id is noted as the last one, its two
/// indexes get the id at their ends and one more to their counts, and nothing else is
/// written.
pub proof fn law_opening_stores_the_terms(
    ledger: Ledger,
    payer: Address,
    recipient: Address,
    token: Address,
    amount: i128,
    interval_seconds: u64,
    start_time: u64,
    max_executions: Option<u32>,
    expiry_time: Option<u64>,
    seen: Readings,
)
    requires
        ledger.count(KEY_PAYER_SUB_COUNT@, payer) < u32::MAX,
        ledger.count(KEY_RECIPIENT_SUB_COUNT@, recipient) < u32::MAX,
    ensures
        ({
            let asked = opened(
                payer,
                recipient,
                token,
                amount,
                interval_seconds,
                start_time,
                max_executions,
                expiry_time,
            );
            let after = ledger.creation(asked, seen).0;
            let sent = ledger.count(KEY_PAYER_SUB_COUNT@, payer);
            let received = ledger.count(KEY_RECIPIENT_SUB_COUNT@, recipient);
            ledger.creation(asked, seen).1 matches Ok(id) ==> {
                let sub = after.subscription(id)->0;
                &&& after.subscription(id) is Some
                &&& sub.payer == payer
                &&& sub.recipient == recipient
                &&& sub.token == token
                &&& sub.amount == amount
                &&& sub.interval_seconds == interval_seconds
                &&& sub.next_execution_time == start_time
                &&& sub.active
                &&& sub.max_executions == max_executions
                &&& sub.expiry_time == expiry_time
                &&& sub.executions_count == 0
                &&& after.last_id() == id
                &&& after.listed(KEY_PAYER_SUB@, payer, sent) == Some(id)
                &&& after.count(KEY_PAYER_SUB_COUNT@, payer) == sent + 1
                &&& after.listed(KEY_RECIPIENT_SUB@, recipient, received) == Some(id)
                &&& after.count(KEY_RECIPIENT_SUB_COUNT@, recipient) == received + 1
                &&& forall|k: Key| #![trigger after.entries.contains_key(k)]
                    #![trigger after.entries[k]]
                    k != Key::Instance(KEY_SUB_SEQ@) && k != Key::Numbered(KEY_SUB@, id) && k
                        != Key::Listed(KEY_PAYER_SUB@, payer, sent) && k != Key::Owned(
                        KEY_PAYER_SUB_COUNT@,
                        payer,
                    ) && k != Key::Listed(KEY_RECIPIENT_SUB@, recipient, received) && k
                        != Key::Owned(KEY_RECIPIENT_SUB_COUNT@, recipient) ==> {
                        &&& after.entries.contains_key(k) == ledger.entries.contains_key(k)
                        &&& after.entries[k] == ledger.entries[k]
                    }
            }
        }),
{
    lemma_index_symbols_differ();
}

/// Whoever asks to open a subscription, the payer is asked to authorise it, before anything
/// else. On acceptable terms the life of the new entry is then extended and the
/// subscription is announced, with all its terms; nothing else passes between contract
/// and host, and where the terms are not acceptable, nothing at all after the payer was asked.
pub proof fn law_opening_tells_the_host(
    ledger: Ledger,
    payer: Address,
    recipient: Address,
    token: Address,
    amount: i128,
    interval_seconds: u64,
    start_time: u64,
    max_executions: Option<u32>,
    expiry_time: Option<u64>,
    seen: Readings,
)
    ensures
        ({
            let sub = opened(
                payer,
                recipient,
                token,
                amount,
                interval_seconds,
                start_time,
                max_executions,
                expiry_time,
            );
            let (after, answer) = ledger.creation(sub, seen);
            let ask = after.trace[after.trace.len() - 2];
            &&& answer matches Ok(id) ==> {
                &&& extends_life(ask, id, after.subscription(id)->0, seen)
                &&& after.trace == ledger.trace + seq![
                    Step::Authorized(payer),
                    Step::Clock(seen.refreshed_at),
                    Step::MaxTtl(seen.max_ttl),
                    ask,
                    Step::Publish {
                        topic: TOPIC_CREATED@,
                        event: Event::Created {
                            id,
                            payer,
                            recipient,
                            token,
                            amount,
                            interval_seconds,
                            start_time,
                            max_executions,
                            expiry_time,
                        },
                    },
                ]
            }
            &&& answer is Err ==> {
                &&& after.trace == ledger.trace + seq![Step::Authorized(payer)]
                &&& after.entries == ledger.entries
            }
        }),
{
    let sub = opened(
        payer,
        recipient,
        token,
        amount,
        interval_seconds,
        start_time,
        max_executions,
        expiry_time,
    );
    let (after, answer) = ledger.creation(sub, seen);
    law_lifetime_is_well_chosen(sub, seen.refreshed_at, seen.max_ttl);
    if let Ok(id) = answer {
        assert(after.trace =~= ledger.trace + seq![
            Step::Authorized(payer),
            Step::Clock(seen.refreshed_at),
            Step::MaxTtl(seen.max_ttl),
            after.trace[after.trace.len() - 2],
            after.trace[after.trace.len() - 1],
        ]);
    } else {
        assert(after.trace =~= ledger.trace + seq![Step::Authorized(payer)]);
    }
}

/// There is room for a new subscription exactly where neither count has reached the end of
/// its type.
pub proof fn law_room_ends_with_the_counts(ledger: Ledger, payer: Address, recipient: Address)
    ensures
        ledger.has_room(payer, recipient) <==> ledger.count(KEY_PAYER_SUB_COUNT@, payer)
            != u32::MAX && ledger.count(KEY_RECIPIENT_SUB_COUNT@, recipient) != u32::MAX,
{
}

/// Every active subscription can be cancelled, whatever its terms and its state: its payer
/// is asked, it is stored as inactive and otherwise as it was, and that is announced; no
/// other entry changes. Only what is not there or already inactive is refused, and then
/// nothing is written.
pub proof fn law_active_subscriptions_can_be_cancelled(ledger: Ledger, id: u64)
    ensures
        ({
            let (after, answer) = ledger.cancellation(id);
            let sub = ledger.subscription(id)->0;
            let ended = after.subscription(id)->0;
            &&& answer is Ok <==> ledger.subscription(id) is Some && sub.active
            &&& answer == Err::<(), StellarSendError>(StellarSendError::SubscriptionNotFound)
                <==> ledger.subscription(id) is None
            &&& answer == Err::<(), StellarSendError>(StellarSendError::SubscriptionInactive)
                <==> ledger.subscription(id) is Some && !sub.active
            &&& answer is Ok ==> {
                &&& after.subscription(id) is Some
                &&& !ended.active
                &&& ended == (Subscription { active: ended.active, ..sub })
                &&& forall|k: Key| #![trigger after.entries.contains_key(k)]
                    #![trigger after.entries[k]]
                    k != Key::Numbered(KEY_SUB@, id) ==> {
                        &&& after.entries.contains_key(k) == ledger.entries.contains_key(k)
                        &&& after.entries[k] == ledger.entries[k]
                    }
                &&& after.trace == ledger.trace + seq![
                    Step::Authorized(sub.payer),
                    Step::Publish {
                        topic: TOPIC_CANCELLED@,
                        event: Event::Cancelled { id, payer: sub.payer },
                    },
                ]
            }
            &&& answer is Err ==> {
                &&& after.entries == ledger.entries
                &&& after.trace == ledger.trace + if ledger.subscription(id) is Some {
                    seq![Step::Authorized(sub.payer)]
                } else {
                    Seq::empty()
                }
            }
        }),
{
    let (after, answer) = ledger.cancellation(id);
    if answer is Ok {
        assert(after.trace =~= ledger.trace + seq![
            Step::Authorized(ledger.subscription(id)->0.payer),
            after.trace.last(),
        ]);
    } else if ledger.subscription(id) is Some {
        assert(after.trace =~= ledger.trace + seq![
            Step::Authorized(ledger.subscription(id)->0.payer),
        ]);
    } else {
        assert(after.trace =~= ledger.trace + Seq::<Step>::empty());
    }
}

/// An execution is planned exactly where the subscription is active, not past its expiry and
/// due, the contract is configured and every number fits; otherwise the answer says what
/// is missing, the first of these. The plan splits the amount into the fee and the rest,
/// moves the due time by one interval, counts one more execution and ends the subscription
/// at its cap; all other terms stay.
pub proof fn law_plan_is_right(sub: Subscription, now: u64, config: Option<ContractConfig>)
    ensures
        ({
            let plan = sub.execution(now, config);
            let runs = sub.active && forall|t: u64| sub.expiry_time == Some(t) ==> now <= t;
            let due = runs && now >= sub.next_execution_time;
            let share = sub.amount * config->0.fee_bps;
            let fits = sub.next_execution_time + sub.interval_seconds <= u64::MAX
                && sub.executions_count < u32::MAX && i128::MIN <= share && share + 9_999
                <= i128::MAX;
            &&& plan is Ok <==> due && config is Some && fits
            &&& plan == Err::<Execution, StellarSendError>(StellarSendError::SubscriptionInactive)
                <==> !sub.active
            &&& plan == Err::<Execution, StellarSendError>(StellarSendError::SubscriptionExpired)
                <==> sub.active && !runs
            &&& plan == Err::<Execution, StellarSendError>(StellarSendError::SubscriptionNotDue) <==> runs
                && now < sub.next_execution_time
            &&& plan == Err::<Execution, StellarSendError>(StellarSendError::NotInitialized) <==> due
                && config is None
            &&& plan == Err::<Execution, StellarSendError>(StellarSendError::ArithmeticOverflow) <==> due
                && config is Some && !fits
            &&& plan matches Ok(x) ==> {
                &&& x.fee_amount + x.net_amount == sub.amount
                &&& rounds(x.fee_amount as int, share + 9_999)
                &&& x.after == (Subscription {
                    next_execution_time: x.after.next_execution_time,
                    executions_count: x.after.executions_count,
                    active: x.after.active,
                    ..sub
                })
                &&& x.after.next_execution_time - sub.next_execution_time == sub.interval_seconds
                &&& x.after.executions_count - sub.executions_count == 1
                &&& x.after.active <==> forall|max: u32|
                    sub.max_executions == Some(max) ==> x.after.executions_count < max
            }
        }),
{
    if sub.expiry_time is Some {
        assert(sub.expiry_time == Some(sub.expiry_time->0));
    }
    if sub.max_executions is Some {
        assert(sub.max_executions == Some(sub.max_executions->0));
    }
    if config is Some {
        let share = sub.amount * config->0.fee_bps;
        law_fee_is_rounded(sub.amount as int, config->0.fee_bps as int);
        if i128::MIN <= share && share + 9_999 <= i128::MAX {
            lemma_fee_fits(sub.amount, config->0.fee_bps);
        }
    }
}

/// An attempt to execute succeeds exactly where a subscription is stored under the id, is
/// active, not past its expiry and due at the time that the host tells, the contract is
/// configured and every number fits; otherwise the answer says what is missing, the first
/// of these.
pub proof fn law_execution_is_answered(ledger: Ledger, id: u64, seen: Readings)
    ensures
        ({
            let answer = ledger.execution(id, seen).1;
            let stored = ledger.subscription(id) is Some;
            let sub = ledger.subscription(id)->0;
            let runs = stored && sub.active && forall|t: u64|
                sub.expiry_time == Some(t) ==> seen.now <= t;
            let due = runs && seen.now >= sub.next_execution_time;
            let share = sub.amount * ledger.config()->0.fee_bps;
            let fits = sub.next_execution_time + sub.interval_seconds <= u64::MAX
                && sub.executions_count < u32::MAX && i128::MIN <= share && share + 9_999
                <= i128::MAX;
            &&& answer is Ok <==> due && ledger.config() is Some && fits
            &&& answer == Err::<i128, StellarSendError>(StellarSendError::SubscriptionNotFound)
                <==> !stored
            &&& answer == Err::<i128, StellarSendError>(StellarSendError::SubscriptionInactive)
                <==> stored && !sub.active
            &&& answer == Err::<i128, StellarSendError>(StellarSendError::SubscriptionExpired)
                <==> stored && sub.active && !runs
            &&& answer == Err::<i128, StellarSendError>(StellarSendError::SubscriptionNotDue)
                <==> runs && seen.now < sub.next_execution_time
            &&& answer == Err::<i128, StellarSendError>(StellarSendError::NotInitialized) <==> due
                && ledger.config() is None
            &&& answer == Err::<i128, StellarSendError>(StellarSendError::ArithmeticOverflow)
                <==> due && ledger.config() is Some && !fits
        }),
{
    if ledger.subscription(id) is Some {
        law_plan_is_right(ledger.subscription(id)->0, seen.now, ledger.config());
    }
}

/// Nothing is paid before it is due: an execution that succeeds finds the next due time
/// reached, and before it an active subscription that has not expired answers
/// `SubscriptionNotDue`, whether it has ever run or not.
pub proof fn law_nothing_is_paid_before_it_is_due(ledger: Ledger, id: u64, seen: Readings)
    requires
        ledger.subscription(id) is Some,
    ensures
        ({
            let sub = ledger.subscription(id)->0;
            let answer = ledger.execution(id, seen).1;
            &&& answer is Ok ==> seen.now >= sub.next_execution_time
            &&& sub.active && seen.now < sub.next_execution_time && (sub.expiry_time is None
                || seen.now <= sub.expiry_time->0) ==> answer == Err::<i128, StellarSendError>(
                StellarSendError::SubscriptionNotDue,
            )
        }),
{
    law_execution_is_answered(ledger, id, seen);
}

/// A payment is stored with the subscription: due one interval later, counted, and inactive
/// exactly at the cap, all other terms as they were. No other entry changes, and a refused
/// attempt changes none.
pub proof fn law_execution_advances_the_subscription(ledger: Ledger, id: u64, seen: Readings)
    ensures
        ({
            let (after, answer) = ledger.execution(id, seen);
            let sub = ledger.subscription(id)->0;
            let now = after.subscription(id)->0;
            &&& answer is Ok ==> {
                &&& ledger.subscription(id) is Some
                &&& after.subscription(id) is Some
                &&& now.payer == sub.payer
                &&& now.recipient == sub.recipient
                &&& now.token == sub.token
                &&& now.amount == sub.amount
                &&& now.interval_seconds == sub.interval_seconds
                &&& now.max_executions == sub.max_executions
                &&& now.expiry_time == sub.expiry_time
                &&& now.next_execution_time - sub.next_execution_time == sub.interval_seconds
                &&& now.executions_count - sub.executions_count == 1
                &&& now.active <==> forall|max: u32|
                    sub.max_executions == Some(max) ==> now.executions_count < max
                &&& forall|k: Key| #![trigger after.entries.contains_key(k)]
                    #![trigger after.entries[k]]
                    k != Key::Numbered(KEY_SUB@, id) ==> {
                        &&& after.entries.contains_key(k) == ledger.entries.contains_key(k)
                        &&& after.entries[k] == ledger.entries[k]
                    }
            }
            &&& answer is Err ==> after.entries == ledger.entries
        }),
{
    if ledger.subscription(id) is Some {
        law_plan_is_right(ledger.subscription(id)->0, seen.now, ledger.config());
    }
}

/// A payment passes the following between contract and host, and nothing else: the time is
/// told and the contract's address; the fee goes to the collector and the rest, which is
/// the answer, to the recipient, each in the subscription's token, out of the payer's
/// balance, against the allowance of the contract, and each only if it is more than
/// nothing; the life of the entry is extended; the payment is announced. A refused attempt
/// is at most told the time.
pub proof fn law_execution_tells_the_host(ledger: Ledger, id: u64, seen: Readings)
    ensures
        ({
            let (after, answer) = ledger.execution(id, seen);
            let sub = ledger.subscription(id)->0;
            let now = after.subscription(id)->0;
            let ask = after.trace[after.trace.len() - 2];
            &&& answer matches Ok(net) ==> {
                let fee = (sub.amount - net) as i128;
                let collector = ledger.config()->0.fee_collector;
                &&& fee + net == sub.amount
                &&& rounds(fee as int, sub.amount * ledger.config()->0.fee_bps + 9_999)
                &&& extends_life(ask, id, now, seen)
                &&& after.trace == ledger.trace + seq![Step::Clock(seen.now), Step::Own(seen.own)]
                    + leg(sub.token, seen.own, sub.payer, collector, fee) + leg(
                    sub.token,
                    seen.own,
                    sub.payer,
                    sub.recipient,
                    net,
                ) + seq![
                    Step::Clock(seen.refreshed_at),
                    Step::MaxTtl(seen.max_ttl),
                    ask,
                    Step::Publish {
                        topic: TOPIC_EXECUTED@,
                        event: Event::Executed {
                            id,
                            payer: sub.payer,
                            recipient: sub.recipient,
                            net_amount: net,
                            fee_amount: fee,
                            next_execution_time: now.next_execution_time,
                            executions_count: now.executions_count,
                            active: now.active,
                        },
                    },
                ]
            }
            &&& answer is Err ==> after.trace == ledger.trace + if ledger.subscription(
                id,
            ) is Some && sub.active {
                seq![Step::Clock(seen.now)]
            } else {
                Seq::empty()
            }
        }),
{
    let (after, answer) = ledger.execution(id, seen);
    let sub = ledger.subscription(id)->0;
    if ledger.subscription(id) is Some {
        law_plan_is_right(sub, seen.now, ledger.config());
    }
    if let Ok(net) = answer {
        let now = after.subscription(id)->0;
        law_lifetime_is_well_chosen(now, seen.refreshed_at, seen.max_ttl);
        let fee = (sub.amount - net) as i128;
        let collector = ledger.config()->0.fee_collector;
        assert(after.trace =~= ledger.trace + seq![Step::Clock(seen.now), Step::Own(seen.own)]
            + leg(sub.token, seen.own, sub.payer, collector, fee) + leg(
            sub.token,
            seen.own,
            sub.payer,
            sub.recipient,
            net,
        ) + seq![
            Step::Clock(seen.refreshed_at),
            Step::MaxTtl(seen.max_ttl),
            after.trace[after.trace.len() - 2],
            after.trace[after.trace.len() - 1],
        ]);
    } else if ledger.subscription(id) is Some && sub.active {
        assert(after.trace =~= ledger.trace + seq![Step::Clock(seen.now)]);
    } else {
        assert(after.trace =~= ledger.trace + Seq::<Step>::empty());
    }
}

/// A payment reaches those whom it is for: in the subscription's token the recipient gets
/// the net amount that is answered and the fee collector the rest of the amount (one who
/// is both gets both), all of it from the payer. Nobody else gets anything, nothing moves
/// in another token or from anybody else, and a refused attempt moves nothing.
pub proof fn law_payment_reaches_recipient_and_collector(
    ledger: Ledger,
    id: u64,
    seen: Readings,
    token: Address,
    from: Address,
    to: Address,
)
    requires
        ledger.subscription(id) is Some ==> ledger.subscription(id)->0.amount >= 0,
        ledger.config() is Some ==> ledger.config()->0.fee_bps <= BPS_DENOMINATOR,
    ensures
        ({
            let (after, answer) = ledger.execution(id, seen);
            let sub = ledger.subscription(id)->0;
            let gained = delivered(after.trace, token, from, to) - delivered(
                ledger.trace,
                token,
                from,
                to,
            );
            &&& answer matches Ok(net) ==> {
                &&& 0 <= net <= sub.amount
                &&& gained == if token == sub.token && from == sub.payer {
                    (if to == sub.recipient {
                        net as int
                    } else {
                        0
                    }) + (if to == ledger.config()->0.fee_collector {
                        sub.amount - net
                    } else {
                        0
                    })
                } else {
                    0
                }
            }
            &&& answer is Err ==> gained == 0
        }),
{
    let (after, answer) = ledger.execution(id, seen);
    let sub = ledger.subscription(id)->0;
    law_execution_tells_the_host(ledger, id, seen);
    reveal_with_fuel(delivered, 5);
    if let Ok(net) = answer {
        let config = ledger.config()->0;
        law_fee_is_within_amount(sub.amount as int, config.fee_bps as int);
        let fee = (sub.amount - net) as i128;
        let told = ledger.trace + seq![Step::Clock(seen.now), Step::Own(seen.own)];
        let fee_leg = leg(sub.token, seen.own, sub.payer, config.fee_collector, fee);
        let net_leg = leg(sub.token, seen.own, sub.payer, sub.recipient, net);
        let rest = seq![
            Step::Clock(seen.refreshed_at),
            Step::MaxTtl(seen.max_ttl),
            after.trace[after.trace.len() - 2],
            after.trace[after.trace.len() - 1],
        ];
        assert(after.trace =~= told + fee_leg + net_leg + rest);
        lemma_delivered_adds(told + fee_leg + net_leg, rest, token, from, to);
        lemma_delivered_adds(told + fee_leg, net_leg, token, from, to);
        lemma_delivered_adds(told, fee_leg, token, from, to);
        lemma_delivered_adds(
            ledger.trace,
            seq![Step::Clock(seen.now), Step::Own(seen.own)],
            token,
            from,
            to,
        );
        assert(delivered(rest, token, from, to) == 0) by {
            assert(rest.drop_last().drop_last().drop_last().drop_last() =~= Seq::<Step>::empty());
        }
        assert(delivered(
            seq![Step::Clock(seen.now), Step::Own(seen.own)],
            token,
            from,
            to,
        ) == 0);
        lemma_leg_delivers(
            sub.token,
            seen.own,
            sub.payer,
            config.fee_collector,
            fee,
            token,
            from,
            to,
        );
        lemma_leg_delivers(
            sub.token,
            seen.own,
            sub.payer,
            sub.recipient,
            net,
            token,
            from,
            to,
        );
    } else if ledger.subscription(id) is Some && sub.active {
        lemma_delivered_adds(ledger.trace, seq![Step::Clock(seen.now)], token, from, to);
    } else {
        assert(after.trace =~= ledger.trace);
    }
}

/// A request to keep a subscription alive succeeds exactly where one is stored, active or
/// not. It changes no entry, asks for nothing but the extension of the entry's life, and
/// where it is refused for nothing at all.
pub proof fn law_upkeep_extends_the_life(ledger: Ledger, id: u64, seen: Readings)
    ensures
        ({
            let (after, answer) = ledger.upkeep(id, seen);
            let ask = after.trace[after.trace.len() - 1];
            &&& answer is Ok <==> ledger.subscription(id) is Some
            &&& answer is Err ==> answer == Err::<(), StellarSendError>(
                StellarSendError::SubscriptionNotFound,
            )
            &&& after.entries == ledger.entries
            &&& answer is Ok ==> {
                &&& extends_life(ask, id, ledger.subscription(id)->0, seen)
                &&& after.trace == ledger.trace + seq![
                    Step::Clock(seen.refreshed_at),
                    Step::MaxTtl(seen.max_ttl),
                    ask,
                ]
            }
            &&& answer is Err ==> after.trace == ledger.trace
        }),
{
    let (after, answer) = ledger.upkeep(id, seen);
    if answer is Ok {
        law_lifetime_is_well_chosen(
            ledger.subscription(id)->0,
            seen.refreshed_at,
            seen.max_ttl,
        );
        assert(after.trace =~= ledger.trace + seq![
            Step::Clock(seen.refreshed_at),
            Step::MaxTtl(seen.max_ttl),
            after.trace[after.trace.len() - 1],
        ]);
    }
}

/// The first configuration is stored as it is given, with any rate up to the ceiling; a
/// second one and a higher rate are refused. No other entry changes, a refusal changes none,
/// and the host is asked for nothing.
pub proof fn law_initialization_stores_the_settings(
    ledger: Ledger,
    admin: Address,
    fee_bps: u32,
    fee_collector: Address,
)
    ensures
        ({
            let (after, answer) = ledger.initialization(admin, fee_bps, fee_collector);
            &&& answer is Ok <==> ledger.config() is None && fee_bps <= MAX_FEE_BPS
            &&& answer == Err::<(), StellarSendError>(StellarSendError::AlreadyInitialized)
                <==> ledger.config() is Some
            &&& answer == Err::<(), StellarSendError>(StellarSendError::InvalidFeeBps)
                <==> ledger.config() is None && fee_bps > MAX_FEE_BPS
            &&& answer is Ok ==> {
                &&& after.config() is Some
                &&& after.config()->0.admin == admin
                &&& after.config()->0.fee_bps == fee_bps
                &&& after.config()->0.fee_collector == fee_collector
                &&& after.config()->0.active
                &&& forall|k: Key| #![trigger after.entries.contains_key(k)]
                    #![trigger after.entries[k]]
                    k != Key::Instance(KEY_CONFIG@) ==> {
                        &&& after.entries.contains_key(k) == ledger.entries.contains_key(k)
                        &&& after.entries[k] == ledger.entries[k]
                    }
            }
            &&& answer is Err ==> after.entries == ledger.entries
            &&& after.trace == ledger.trace
        }),
{
    lemma_instance_symbols_differ();
}

/// A change of the fee rate stores exactly the rate that is asked for, with the other
/// settings as they were, for any rate up to the ceiling; a higher rate, and a contract that
/// is not configured, are refused. The administrator is asked to authorise it, and the
/// host for nothing else. No other entry changes, and a refusal changes none.
pub proof fn law_fee_change_stores_the_rate(ledger: Ledger, fee_bps: u32)
    ensures
        ({
            let (after, answer) = ledger.fee_change(fee_bps);
            let config = ledger.config()->0;
            &&& answer is Ok <==> ledger.config() is Some && fee_bps <= MAX_FEE_BPS
            &&& answer == Err::<(), StellarSendError>(StellarSendError::NotInitialized)
                <==> ledger.config() is None
            &&& answer == Err::<(), StellarSendError>(StellarSendError::InvalidFeeBps)
                <==> ledger.config() is Some && fee_bps > MAX_FEE_BPS
            &&& answer is Ok ==> {
                &&& after.config() is Some
                &&& after.config()->0.fee_bps == fee_bps
                &&& after.config()->0.admin == config.admin
                &&& after.config()->0.fee_collector == config.fee_collector
                &&& after.config()->0.active == config.active
                &&& forall|k: Key| #![trigger after.entries.contains_key(k)]
                    #![trigger after.entries[k]]
                    k != Key::Instance(KEY_CONFIG@) ==> {
                        &&& after.entries.contains_key(k) == ledger.entries.contains_key(k)
                        &&& after.entries[k] == ledger.entries[k]
                    }
            }
            &&& answer is Err ==> after.entries == ledger.entries
            &&& after.trace == ledger.trace + if ledger.config() is Some {
                seq![Step::Authorized(config.admin)]
            } else {
                Seq::empty()
            }
        }),
{
    lemma_instance_symbols_differ();
    let after = ledger.fee_change(fee_bps).0;
    if ledger.config() is Some {
        assert(after.trace =~= ledger.trace + seq![
            Step::Authorized(ledger.config()->0.admin),
        ]);
    } else {
        assert(after.trace =~= ledger.trace + Seq::<Step>::empty());
    }
}

/// The ceiling of the fee rate is a tenth of the whole.
pub proof fn law_fee_ceiling_is_a_tenth()
    ensures
        MAX_FEE_BPS * 10 == BPS_DENOMINATOR,
        BPS_DENOMINATOR == 10_000,
{
}

/// A ledger takes five seconds, and the cushion is as many ledgers as a day has.
pub proof fn law_cushion_is_a_day()
    ensures
        SUBSCRIPTION_TTL_LEDGER_SECONDS == 5,
        SUBSCRIPTION_TTL_SAFETY_LEDGERS * SUBSCRIPTION_TTL_LEDGER_SECONDS == 24 * 60 * 60,
{
}

/// The lifetime that is asked for is the right one for every subscription, time and
/// network.
pub proof fn law_lifetime_is_well_chosen(sub: Subscription, now: u64, max_ttl: u32)
    ensures
        well_chosen(
            sub.ttl_target(now, max_ttl),
            sub.ttl_threshold(now, max_ttl),
            sub,
            now,
            max_ttl,
        ),
{
}

/// Where the product and what is added to round it fit, so does the fee.
proof fn lemma_fee_fits(amount: i128, fee_bps: u32)
    requires
        i128::MIN <= amount * fee_bps,
        amount * fee_bps + 9_999 <= i128::MAX,
    ensures
        i128::MIN <= fee_on(amount as int, fee_bps as int) <= i128::MAX,
        i128::MIN <= amount - fee_on(amount as int, fee_bps as int) <= i128::MAX,
{
    assert(amount >= 0 ==> amount * fee_bps >= 0) by (nonlinear_arith);
    assert(amount <= 0 ==> amount * fee_bps <= 0) by (nonlinear_arith);
}

/// What two stretches of a trace deliver adds up.
proof fn lemma_delivered_adds(
    a: Seq<Step>,
    b: Seq<Step>,
    token: Address,
    from: Address,
    to: Address,
)
    ensures
        delivered(a + b, token, from, to) == delivered(a, token, from, to) + delivered(
            b,
            token,
            from,
            to,
        ),
    decreases b.len(),
{
    if b.len() == 0 {
        assert(a + b =~= a);
    } else {
        lemma_delivered_adds(a, b.drop_last(), token, from, to);
        assert((a + b).drop_last() =~= a + b.drop_last());
    }
}

/// A leg delivers its amount.
proof fn lemma_leg_delivers(
    leg_token: Address,
    spender: Address,
    leg_from: Address,
    leg_to: Address,
    amount: i128,
    token: Address,
    from: Address,
    to: Address,
)
    requires
        amount >= 0,
    ensures
        delivered(leg(leg_token, spender, leg_from, leg_to, amount), token, from, to) == if token
            == leg_token && from == leg_from && to == leg_to {
            amount as int
        } else {
            0
        },
{
    reveal_with_fuel(delivered, 2);
}

} // verus!
