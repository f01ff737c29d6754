//! Scheduled and recurring payments.
//!
//! A payer opens a subscription that names a recipient, a token, an amount and an
//! interval. Payments are pulled: the payer grants the contract an allowance on the
//! token, and from then on anyone may call [`StellarSendContract::execute_subscription`]
//! when a payment is due.
//!
//! Two optional bounds keep a subscription from running forever. `max_executions` is a
//! ceiling on the number of payments: reaching it deactivates the subscription, as
//! a cancellation does. `expiry_time` is a time past which nothing is paid any
//! more: the subscription stays active and every later attempt is told that it has
//! expired.
//!
//! A payment moves the due time by exactly one interval. If nobody called for a while,
//! the missed payments can be made up for one after the other; the two bounds limit
//! how many that are.
//!
//! A stored subscription lives on the ledger for a limited number of ledgers. Opening
//! it, every payment and [`StellarSendContract::keep_subscription_alive`] extend its life
//! past the next due time, as far as the network allows.
//!
//! Each operation is described by a function of [`Ledger`] that gives the ledger
//! afterwards and the answer. What the host told in between is an argument of it, see
//! [`Readings`].

use soroban_sdk::{Address, Env};
use vstd::prelude::*;

use crate::contract::StellarSendContract;
use crate::error::StellarSendError;
use crate::host;
use crate::ledger::{
    ledger, lives, numbers, symbol_text, Event, Key, Ledger, Step, Value, KEY_PAYER_SUB,
    KEY_PAYER_SUB_COUNT, KEY_RECIPIENT_SUB, KEY_RECIPIENT_SUB_COUNT, KEY_SUB, KEY_SUB_SEQ,
};
use crate::schedule::{
    check_terms, lifetime_target, max_of, min_of, opened, plan_execution, terms_error, Execution,
    Subscription,
};

verus! {

/// The most ids that one page of an index holds.
pub const MAX_SUBSCRIPTIONS_PAGE: u32 = 50;

/// Topic of the event of a new subscription.
pub const TOPIC_CREATED: &'static str = "sub_created";

/// Topic of the event of a cancellation.
pub const TOPIC_CANCELLED: &'static str = "sub_cancelled";

/// Topic of the event of an execution.
pub const TOPIC_EXECUTED: &'static str = "sub_executed";

/// What the host tells in the course of one operation.
pub struct Readings {
    /// The time at which an execution is decided.
    pub now: u64,
    /// The contract's own address.
    pub own: Address,
    /// The time at which the entry's lifetime is worked out.
    pub refreshed_at: u64,
    /// The longest lifetime that the network allows.
    pub max_ttl: u32,
}

impl Ledger {
    /// The last subscription id given out; zero before the first.
    pub open spec fn last_id(self) -> u64 {
        match self.number(KEY_SUB_SEQ@) {
            Some(n) => n,
            None => 0,
        }
    }

    /// The id that the next subscription gets: one more than the last, round to zero
    /// after the largest.
    pub open spec fn next_id(self) -> u64 {
        if self.last_id() == u64::MAX {
            0
        } else {
            (self.last_id() + 1) as u64
        }
    }

    /// The ledger with a subscription written under an id.
    pub open spec fn stored(self, id: u64, sub: Subscription) -> Ledger {
        self.put(Key::Numbered(KEY_SUB@, id), Value::Subscription(sub))
    }

    /// The ledger after the life of a subscription's entry was extended.
    pub open spec fn refreshed(self, id: u64, sub: Subscription, seen: Readings) -> Ledger {
        let threshold = sub.ttl_threshold(seen.refreshed_at, seen.max_ttl);
        let extend_to = sub.ttl_target(seen.refreshed_at, seen.max_ttl);
        self.noted(Step::Clock(seen.refreshed_at)).noted(Step::MaxTtl(seen.max_ttl)).noted(
            Step::ExtendTtl {
                key: Key::Numbered(KEY_SUB@, id),
                threshold: threshold as u32,
                extend_to: extend_to as u32,
            },
        )
    }

    /// The ledger with an id added at the end of an address's index.
    pub open spec fn indexed(
        self,
        symbol: Seq<char>,
        count_symbol: Seq<char>,
        owner: Address,
        id: u64,
    ) -> Ledger {
        let count = self.count(count_symbol, owner);
        self.put(Key::Listed(symbol, owner, count), Value::Number(id)).put(
            Key::Owned(count_symbol, owner),
            Value::Count((count + 1) as u32),
        )
    }

    /// The ledger after a transfer was asked for; a transfer of nothing is left out.
    pub open spec fn paid(
        self,
        token: Address,
        spender: Address,
        from: Address,
        to: Address,
        amount: i128,
    ) -> Ledger {
        if amount > 0 {
            self.noted(Step::TransferFrom { token, spender, from, to, amount })
        } else {
            self
        }
    }

    /// What opening the subscription `sub` does and returns.
    pub open spec fn creation(self, sub: Subscription, seen: Readings) -> (
        Ledger,
        Result<u64, StellarSendError>,
    ) {
        let asked = self.noted(Step::Authorized(sub.payer));
        let id = self.next_id();
        match sub.objection() {
            Some(e) => (asked, Err(e)),
            None => (
                asked.put(Key::Instance(KEY_SUB_SEQ@), Value::Number(id)).stored(id, sub).refreshed(
                    id,
                    sub,
                    seen,
                ).indexed(KEY_PAYER_SUB@, KEY_PAYER_SUB_COUNT@, sub.payer, id).indexed(
                    KEY_RECIPIENT_SUB@,
                    KEY_RECIPIENT_SUB_COUNT@,
                    sub.recipient,
                    id,
                ).noted(
                    Step::Publish {
                        topic: TOPIC_CREATED@,
                        event: Event::Created {
                            id,
                            payer: sub.payer,
                            recipient: sub.recipient,
                            token: sub.token,
                            amount: sub.amount,
                            interval_seconds: sub.interval_seconds,
                            start_time: sub.next_execution_time,
                            max_executions: sub.max_executions,
                            expiry_time: sub.expiry_time,
                        },
                    },
                ),
                Ok(id),
            ),
        }
    }

    /// Whether both indexes of a new subscription have room for one more id.
    pub open spec fn has_room(self, payer: Address, recipient: Address) -> bool {
        &&& self.count(KEY_PAYER_SUB_COUNT@, payer) < u32::MAX
        &&& self.count(KEY_RECIPIENT_SUB_COUNT@, recipient) < u32::MAX
    }

    /// What a cancellation does and returns.
    pub open spec fn cancellation(self, id: u64) -> (Ledger, Result<(), StellarSendError>) {
        match self.subscription(id) {
            None => (self, Err(StellarSendError::SubscriptionNotFound)),
            Some(sub) => {
                let asked = self.noted(Step::Authorized(sub.payer));
                if !sub.active {
                    (asked, Err(StellarSendError::SubscriptionInactive))
                } else {
                    (
                        asked.stored(id, sub.cancelled()).noted(
                            Step::Publish {
                                topic: TOPIC_CANCELLED@,
                                event: Event::Cancelled { id, payer: sub.payer },
                            },
                        ),
                        Ok(()),
                    )
                }
            },
        }
    }

    /// The ledger after an execution `x` of the subscription `id`, with the fee going to
    /// `collector`.
    pub open spec fn executed(
        self,
        id: u64,
        x: Execution,
        collector: Address,
        seen: Readings,
    ) -> Ledger {
        let sub = x.after;
        self.stored(id, sub).noted(Step::Own(seen.own)).paid(
            sub.token,
            seen.own,
            sub.payer,
            collector,
            x.fee_amount,
        ).paid(sub.token, seen.own, sub.payer, sub.recipient, x.net_amount).refreshed(
            id,
            sub,
            seen,
        ).noted(
            Step::Publish {
                topic: TOPIC_EXECUTED@,
                event: Event::Executed {
                    id,
                    payer: sub.payer,
                    recipient: sub.recipient,
                    net_amount: x.net_amount,
                    fee_amount: x.fee_amount,
                    next_execution_time: sub.next_execution_time,
                    executions_count: sub.executions_count,
                    active: sub.active,
                },
            },
        )
    }

    /// What an attempt to execute does and returns.
    pub open spec fn execution(self, id: u64, seen: Readings) -> (
        Ledger,
        Result<i128, StellarSendError>,
    ) {
        match self.subscription(id) {
            None => (self, Err(StellarSendError::SubscriptionNotFound)),
            Some(sub) => if !sub.active {
                (self, Err(StellarSendError::SubscriptionInactive))
            } else {
                let told = self.noted(Step::Clock(seen.now));
                match sub.execution(seen.now, self.config()) {
                    Err(e) => (told, Err(e)),
                    Ok(x) => (
                        told.executed(id, x, self.config()->0.fee_collector, seen),
                        Ok(x.net_amount),
                    ),
                }
            },
        }
    }

    /// What a request to keep a subscription alive does and returns.
    pub open spec fn upkeep(self, id: u64, seen: Readings) -> (
        Ledger,
        Result<(), StellarSendError>,
    ) {
        match self.subscription(id) {
            None => (self, Err(StellarSendError::SubscriptionNotFound)),
            Some(sub) => (self.refreshed(id, sub, seen), Ok(())),
        }
    }

    /// The ids that an address's index holds at the positions from `start` up to `end`,
    /// in order; a position without an entry is passed over.
    pub open spec fn ids_between(
        self,
        symbol: Seq<char>,
        owner: Address,
        start: int,
        end: int,
    ) -> Seq<u64>
        decreases end - start,
    {
        if start >= end {
            Seq::empty()
        } else {
            let before = self.ids_between(symbol, owner, start, end - 1);
            match self.listed(symbol, owner, (end - 1) as u32) {
                Some(id) => before.push(id),
                None => before,
            }
        }
    }

    /// A page of an address's index of `total` ids: from `start_index`, at most `limit`
    /// ids, and never more than [`MAX_SUBSCRIPTIONS_PAGE`].
    pub open spec fn page(
        self,
        symbol: Seq<char>,
        owner: Address,
        start_index: u32,
        limit: u32,
        total: u32,
    ) -> Seq<u64> {
        let capped = min_of(limit as int, MAX_SUBSCRIPTIONS_PAGE as int);
        self.ids_between(
            symbol,
            owner,
            start_index as int,
            min_of(start_index + capped, total as int),
        )
    }
}

impl Subscription {
    /// The first objection to opening the subscription, if there is one.
    pub open spec fn objection(self) -> Option<StellarSendError> {
        terms_error(
            self.amount,
            self.interval_seconds,
            self.payer == self.recipient,
            self.next_execution_time,
            self.max_executions,
            self.expiry_time,
        )
    }
}

/// The entries' lives after the entry of `sub`, stored under `id`, was refreshed: it lives
/// as long as is wanted and the network allows, or longer if it did so before.
pub open spec fn refreshed_lives(
    lives: Map<Key, u32>,
    id: u64,
    sub: Subscription,
    seen: Readings,
) -> Map<Key, u32> {
    let key = Key::Numbered(KEY_SUB@, id);
    lives.insert(
        key,
        max_of(lives[key] as int, sub.ttl_target(seen.refreshed_at, seen.max_ttl)) as u32,
    )
}

/// The entries' lives after an operation that refreshes the entry of `sub` where it
/// succeeds, and leaves them alone where it is refused.
pub open spec fn lives_after(
    succeeded: bool,
    lives: Map<Key, u32>,
    id: u64,
    sub: Subscription,
    seen: Readings,
) -> Map<Key, u32> {
    if succeeded {
        refreshed_lives(lives, id, sub, seen)
    } else {
        lives
    }
}

/// What a request to open `sub` makes of the entries' lives, from `was` to `now`: where it
/// is refused, nothing. Otherwise every entry that `before` held keeps its life, except
/// that the one written for `sub` is refreshed; a new one lives at least as long as a
/// refreshed one.
pub open spec fn lives_opened(
    before: Ledger,
    was: Map<Key, u32>,
    now: Map<Key, u32>,
    answer: Result<u64, StellarSendError>,
    sub: Subscription,
    seen: Readings,
) -> bool {
    match answer {
        Err(_) => now == was,
        Ok(id) => {
            let key = Key::Numbered(KEY_SUB@, id);
            &&& forall|k: Key|
                before.entries.contains_key(k) && k != key ==> #[trigger] now[k] == was[k]
            &&& before.entries.contains_key(key) ==> now[key] == refreshed_lives(
                was,
                id,
                sub,
                seen,
            )[key]
            &&& now[key] >= sub.ttl_target(seen.refreshed_at, seen.max_ttl)
        },
    }
}

/// The texts that the contract uses as symbols are symbols.
proof fn lemma_symbols()
    ensures
        symbol_text(KEY_SUB@),
        symbol_text(KEY_SUB_SEQ@),
        symbol_text(KEY_PAYER_SUB@),
        symbol_text(KEY_PAYER_SUB_COUNT@),
        symbol_text(KEY_RECIPIENT_SUB@),
        symbol_text(KEY_RECIPIENT_SUB_COUNT@),
        symbol_text(TOPIC_CREATED@),
        symbol_text(TOPIC_CANCELLED@),
        symbol_text(TOPIC_EXECUTED@),
{
    reveal_strlit("SUB");
    reveal_strlit("SUB_SEQ");
    reveal_strlit("PAY_SUB");
    reveal_strlit("PAY_SUBN");
    reveal_strlit("REC_SUB");
    reveal_strlit("REC_SUBN");
    reveal_strlit("sub_created");
    reveal_strlit("sub_cancelled");
    reveal_strlit("sub_executed");
}

impl StellarSendContract {
    /// Opens a subscription and returns its id. `start_time` is the first due time and
    /// may lie in the past; `max_executions` and `expiry_time` bound the subscription,
    /// see the module's description. The payer has to authorise the call.
    ///
    /// Each of the two indexes counts its ids in a `u32`; a call that would have to add
    /// to a full index is left out. See
    /// [`StellarSendContract::create_subscription_unless_full`].
    pub fn create_subscription(
        env: &mut Env,
        payer: Address,
        recipient: Address,
        token: Address,
        amount: i128,
        interval_seconds: u64,
        start_time: u64,
        max_executions: Option<u32>,
        expiry_time: Option<u64>,
    ) -> (r: Result<u64, StellarSendError>)
        requires
            terms_error(
                amount,
                interval_seconds,
                payer == recipient,
                start_time,
                max_executions,
                expiry_time,
            ) is None ==> ledger(*old(env)).has_room(payer, recipient),
        ensures
            exists|seen: Readings|
                (ledger(*final(env)), r) == #[trigger] ledger(*old(env)).creation(
                    opened(
                        payer,
                        recipient,
                        token,
                        amount,
                        interval_seconds,
                        start_time,
                        max_executions,
                        expiry_time,
                    ),
                    seen,
                ) && lives_opened(
                    ledger(*old(env)),
                    lives(*old(env)),
                    lives(*final(env)),
                    r,
                    opened(
                        payer,
                        recipient,
                        token,
                        amount,
                        interval_seconds,
                        start_time,
                        max_executions,
                        expiry_time,
                    ),
                    seen,
                ),
    {
        let ghost before = ledger(*env);
        let ghost whole = opened(
            payer,
            recipient,
            token,
            amount,
            interval_seconds,
            start_time,
            max_executions,
            expiry_time,
        );
        host::require_auth(env, &payer);
        let self_payment = host::same_address(&payer, &recipient);
        match check_terms(
            amount,
            interval_seconds,
            self_payment,
            start_time,
            max_executions,
            expiry_time,
        ) {
            Ok(()) => {},
            Err(e) => {
                proof {
                    let seen = arbitrary::<Readings>();
                    assert((ledger(*env), Err::<u64, StellarSendError>(e)) == before.creation(
                        whole,
                        seen,
                    ));
                }
                return Err(e);
            },
        }

        let id: u64 = Self::next_sub_id(env);
        let sub = Subscription {
            payer,
            recipient,
            token,
            amount,
            interval_seconds,
            next_execution_time: start_time,
            active: true,
            max_executions,
            expiry_time,
            executions_count: 0,
        };
        proof {
            lemma_symbols();
        }
        host::persistent_set_subscription(env, KEY_SUB, id, &sub);
        let ghost kept = ledger(*env);
        let ghost born = lives(*env);
        Self::refresh_subscription_ttl(env, id, &sub);
        let ghost seen = choose|seen: Readings|
            ledger(*env) == #[trigger] kept.refreshed(id, sub, seen) && lives(*env)
                == refreshed_lives(born, id, sub, seen);
        Self::record_payer_subscription(env, &sub.payer, id);
        Self::record_recipient_subscription(env, &sub.recipient, id);
        host::publish_created(env, TOPIC_CREATED, id, &sub);
        proof {
            assert((ledger(*env), Ok::<u64, StellarSendError>(id)) == before.creation(whole, seen));
        }
        Ok(id)
    }

    /// Opens a subscription as [`StellarSendContract::create_subscription`] does, unless
    /// it would have to add to a full index: then nothing is done and the answer is `None`.
    pub fn create_subscription_unless_full(
        env: &mut Env,
        payer: Address,
        recipient: Address,
        token: Address,
        amount: i128,
        interval_seconds: u64,
        start_time: u64,
        max_executions: Option<u32>,
        expiry_time: Option<u64>,
    ) -> (r: Option<Result<u64, StellarSendError>>)
        ensures
            r is None <==> terms_error(
                amount,
                interval_seconds,
                payer == recipient,
                start_time,
                max_executions,
                expiry_time,
            ) is None && !ledger(*old(env)).has_room(payer, recipient),
            r is None ==> ledger(*final(env)) == ledger(*old(env)),
            r is None ==> lives(*final(env)) == lives(*old(env)),
            r is Some ==> exists|seen: Readings|
                (ledger(*final(env)), r->0) == #[trigger] ledger(*old(env)).creation(
                    opened(
                        payer,
                        recipient,
                        token,
                        amount,
                        interval_seconds,
                        start_time,
                        max_executions,
                        expiry_time,
                    ),
                    seen,
                ) && lives_opened(
                    ledger(*old(env)),
                    lives(*old(env)),
                    lives(*final(env)),
                    r->0,
                    opened(
                        payer,
                        recipient,
                        token,
                        amount,
                        interval_seconds,
                        start_time,
                        max_executions,
                        expiry_time,
                    ),
                    seen,
                ),
    {
        let sent: u32 = Self::get_payer_subscription_count(env, payer.clone());
        let received: u32 = Self::get_recipient_subscription_count(env, recipient.clone());
        let self_payment = host::same_address(&payer, &recipient);
        let acceptable = check_terms(
            amount,
            interval_seconds,
            self_payment,
            start_time,
            max_executions,
            expiry_time,
        ).is_ok();
        if acceptable && (sent == u32::MAX || received == u32::MAX) {
            return None;
        }
        Some(
            Self::create_subscription(
                env,
                payer,
                recipient,
                token,
                amount,
                interval_seconds,
                start_time,
                max_executions,
                expiry_time,
            ),
        )
    }

    /// Cancels a subscription. The payer has to authorise the call. A subscription that
    /// is no longer active is answered with `SubscriptionInactive`.
    pub fn cancel_subscription(env: &mut Env, id: u64) -> (r: Result<(), StellarSendError>)
        ensures
            (ledger(*final(env)), r) == ledger(*old(env)).cancellation(id),
            lives(*final(env)) == lives(*old(env)),
    {
        let mut sub = match Self::load_subscription(env, id) {
            Ok(sub) => sub,
            Err(e) => return Err(e),
        };
        host::require_auth(env, &sub.payer);
        if !sub.active {
            return Err(StellarSendError::SubscriptionInactive);
        }
        sub.active = false;
        proof {
            lemma_symbols();
        }
        host::persistent_set_subscription(env, KEY_SUB, id, &sub);
        host::publish_cancelled(env, TOPIC_CANCELLED, id, &sub.payer);
        Ok(())
    }

    /// Executes a subscription that is due and returns what the recipient gets. Anyone
    /// may call: the payer has granted the contract an allowance on the token. The fee
    /// and the rest are moved out of the payer's balance; a leg of zero is left out.
    pub fn execute_subscription(env: &mut Env, id: u64) -> (r: Result<i128, StellarSendError>)
        ensures
            exists|seen: Readings|
                (ledger(*final(env)), r) == #[trigger] ledger(*old(env)).execution(id, seen)
                    && lives(*final(env)) == lives_after(
                    r is Ok,
                    lives(*old(env)),
                    id,
                    ledger(*final(env)).subscription(id)->0,
                    seen,
                ),
    {
        let ghost before = ledger(*env);
        let ghost was = lives(*env);
        let ghost idle = arbitrary::<Readings>();
        let sub = match Self::load_subscription(env, id) {
            Ok(sub) => sub,
            Err(e) => {
                assert((ledger(*env), Err::<i128, StellarSendError>(e)) == before.execution(
                    id,
                    idle,
                ));
                return Err(e);
            },
        };
        if !sub.active {
            assert((
                ledger(*env),
                Err::<i128, StellarSendError>(StellarSendError::SubscriptionInactive),
            ) == before.execution(id, idle));
            return Err(StellarSendError::SubscriptionInactive);
        }
        let now: u64 = host::timestamp(env);
        let config = Self::stored_config(env);
        let x: Execution = match plan_execution(sub, now, &config) {
            Ok(x) => x,
            Err(e) => {
                proof {
                    let seen = Readings { now, ..idle };
                    assert((ledger(*env), Err::<i128, StellarSendError>(e)) == before.execution(
                        id,
                        seen,
                    ));
                }
                return Err(e);
            },
        };
        let fee_collector = match config {
            Some(c) => c.fee_collector,
            None => return Err(StellarSendError::NotInitialized),
        };
        proof {
            lemma_symbols();
        }
        host::persistent_set_subscription(env, KEY_SUB, id, &x.after);

        let spender = host::current_contract_address(env);
        if x.fee_amount > 0 {
            host::transfer_from(
                env,
                &x.after.token,
                &spender,
                &x.after.payer,
                &fee_collector,
                x.fee_amount,
            );
        }
        if x.net_amount > 0 {
            host::transfer_from(
                env,
                &x.after.token,
                &spender,
                &x.after.payer,
                &x.after.recipient,
                x.net_amount,
            );
        }
        let ghost moved = ledger(*env);
        Self::refresh_subscription_ttl(env, id, &x.after);
        let ghost last = choose|seen: Readings|
            ledger(*env) == #[trigger] moved.refreshed(id, x.after, seen) && lives(*env)
                == refreshed_lives(was, id, x.after, seen);
        host::publish_executed(
            env,
            TOPIC_EXECUTED,
            id,
            &x.after,
            x.net_amount,
            x.fee_amount,
        );
        proof {
            let seen = Readings { now, own: spender, ..last };
            assert(moved.refreshed(id, x.after, seen) == moved.refreshed(id, x.after, last));
            assert((ledger(*env), Ok::<i128, StellarSendError>(x.net_amount)) == before.execution(
                id,
                seen,
            ));
        }
        Ok(x.net_amount)
    }

    /// Extends the life of a subscription's entry without a payment. Anyone may call.
    pub fn keep_subscription_alive(env: &mut Env, id: u64) -> (r: Result<(), StellarSendError>)
        ensures
            exists|seen: Readings|
                (ledger(*final(env)), r) == #[trigger] ledger(*old(env)).upkeep(id, seen)
                    && lives(*final(env)) == lives_after(
                    r is Ok,
                    lives(*old(env)),
                    id,
                    ledger(*final(env)).subscription(id)->0,
                    seen,
                ),
    {
        let ghost before = ledger(*env);
        let ghost was = lives(*env);
        let sub = match Self::load_subscription(env, id) {
            Ok(sub) => sub,
            Err(e) => {
                proof {
                    let seen = arbitrary::<Readings>();
                    assert((ledger(*env), Err::<(), StellarSendError>(e)) == before.upkeep(
                        id,
                        seen,
                    ));
                }
                return Err(e);
            },
        };
        Self::refresh_subscription_ttl(env, id, &sub);
        proof {
            let seen = choose|seen: Readings|
                ledger(*env) == #[trigger] before.refreshed(id, sub, seen) && lives(*env)
                    == refreshed_lives(was, id, sub, seen);
            assert((ledger(*env), Ok::<(), StellarSendError>(())) == before.upkeep(id, seen));
        }
        Ok(())
    }

    /// The subscription with an id.
    pub fn get_subscription(env: &Env, id: u64) -> (r: Result<Subscription, StellarSendError>)
        ensures
            r == match ledger(*env).subscription(id) {
                Some(sub) => Ok::<Subscription, StellarSendError>(sub),
                None => Err::<Subscription, StellarSendError>(
                    StellarSendError::SubscriptionNotFound,
                ),
            },
    {
        Self::load_subscription(env, id)
    }

    /// A page of the ids of the subscriptions that `payer` has opened, in the order in
    /// which they were opened, whether they are still active or not. It begins at position
    /// `start_index` and holds at most `limit` ids, and never more than
    /// [`MAX_SUBSCRIPTIONS_PAGE`]; past the end it is empty.
    pub fn get_subscriptions_for_payer(
        env: &Env,
        payer: Address,
        start_index: u32,
        limit: u32,
    ) -> (ids: soroban_sdk::Vec<u64>)
        ensures
            numbers(ids) == ledger(*env).page(
                KEY_PAYER_SUB@,
                payer,
                start_index,
                limit,
                ledger(*env).count(KEY_PAYER_SUB_COUNT@, payer),
            ),
    {
        proof {
            lemma_symbols();
        }
        let count: u32 = host::persistent_get_count(env, KEY_PAYER_SUB_COUNT, &payer).unwrap_or(0);
        Self::collect_subscription_page(env, KEY_PAYER_SUB, &payer, start_index, limit, count)
    }

    /// How many subscriptions `payer` has opened.
    pub fn get_payer_subscription_count(env: &Env, payer: Address) -> (count: u32)
        ensures
            count == ledger(*env).count(KEY_PAYER_SUB_COUNT@, payer),
    {
        proof {
            lemma_symbols();
        }
        host::persistent_get_count(env, KEY_PAYER_SUB_COUNT, &payer).unwrap_or(0)
    }

    /// A page of the ids of the subscriptions that pay `recipient`, as
    /// [`StellarSendContract::get_subscriptions_for_payer`] gives one of a payer's.
    pub fn get_subscriptions_for_recipient(
        env: &Env,
        recipient: Address,
        start_index: u32,
        limit: u32,
    ) -> (ids: soroban_sdk::Vec<u64>)
        ensures
            numbers(ids) == ledger(*env).page(
                KEY_RECIPIENT_SUB@,
                recipient,
                start_index,
                limit,
                ledger(*env).count(KEY_RECIPIENT_SUB_COUNT@, recipient),
            ),
    {
        proof {
            lemma_symbols();
        }
        let count: u32 = host::persistent_get_count(
            env,
            KEY_RECIPIENT_SUB_COUNT,
            &recipient,
        ).unwrap_or(0);
        Self::collect_subscription_page(
            env,
            KEY_RECIPIENT_SUB,
            &recipient,
            start_index,
            limit,
            count,
        )
    }

    /// How many subscriptions pay `recipient`.
    pub fn get_recipient_subscription_count(env: &Env, recipient: Address) -> (count: u32)
        ensures
            count == ledger(*env).count(KEY_RECIPIENT_SUB_COUNT@, recipient),
    {
        proof {
            lemma_symbols();
        }
        host::persistent_get_count(env, KEY_RECIPIENT_SUB_COUNT, &recipient).unwrap_or(0)
    }

    /// Reads one page of an address's index of `total` ids: from `start_index`, at most
    /// `limit` ids, and never more than [`MAX_SUBSCRIPTIONS_PAGE`].
    pub fn collect_subscription_page(
        env: &Env,
        symbol: &str,
        owner: &Address,
        start_index: u32,
        limit: u32,
        total: u32,
    ) -> (ids: soroban_sdk::Vec<u64>)
        requires
            symbol_text(symbol@),
        ensures
            numbers(ids) == ledger(*env).page(symbol@, *owner, start_index, limit, total),
    {
        let capped_limit: u32 = limit.min(MAX_SUBSCRIPTIONS_PAGE);
        let end: u32 = start_index.saturating_add(capped_limit).min(total);
        let mut ids = host::new_list(env);
        let mut i: u32 = start_index;
        while i < end
            invariant
                symbol_text(symbol@),
                start_index <= i,
                i <= end || i == start_index,
                end <= start_index + MAX_SUBSCRIPTIONS_PAGE,
                numbers(ids).len() <= i - start_index,
                numbers(ids) == ledger(*env).ids_between(
                    symbol@,
                    *owner,
                    start_index as int,
                    i as int,
                ),
            decreases end - i,
        {
            if let Some(id) = host::persistent_get_listed(env, symbol, owner, i) {
                host::push_back(&mut ids, id);
            }
            i = i + 1;
        }
        ids
    }

    /// Reads the subscription with an id.
    fn load_subscription(env: &Env, id: u64) -> (r: Result<Subscription, StellarSendError>)
        ensures
            r == match ledger(*env).subscription(id) {
                Some(sub) => Ok::<Subscription, StellarSendError>(sub),
                None => Err::<Subscription, StellarSendError>(
                    StellarSendError::SubscriptionNotFound,
                ),
            },
    {
        proof {
            lemma_symbols();
        }
        match host::persistent_get_subscription(env, KEY_SUB, id) {
            Some(sub) => Ok(sub),
            None => Err(StellarSendError::SubscriptionNotFound),
        }
    }

    /// Extends the life of the entry of `sub`, stored under `id`, past its horizon.
    fn refresh_subscription_ttl(env: &mut Env, id: u64, sub: &Subscription)
        requires
            ledger(*old(env)).entries.contains_key(Key::Numbered(KEY_SUB@, id)),
        ensures
            exists|seen: Readings|
                ledger(*final(env)) == #[trigger] ledger(*old(env)).refreshed(id, *sub, seen)
                    && lives(*final(env)) == refreshed_lives(lives(*old(env)), id, *sub, seen),
    {
        let ghost before = ledger(*env);
        let now: u64 = host::timestamp(env);
        let max_ttl: u32 = host::max_ttl(env);
        let extend_to: u32 = lifetime_target(sub, now, max_ttl);
        proof {
            lemma_symbols();
        }
        host::persistent_extend_ttl(env, KEY_SUB, id, extend_to.saturating_sub(1), extend_to);
        proof {
            let seen = Readings { now, own: sub.payer, refreshed_at: now, max_ttl };
            assert(ledger(*env) == before.refreshed(id, *sub, seen));
        }
    }

    /// Takes the next subscription id.
    fn next_sub_id(env: &mut Env) -> (id: u64)
        ensures
            id == ledger(*old(env)).next_id(),
            ledger(*final(env)) == ledger(*old(env)).put(
                Key::Instance(KEY_SUB_SEQ@),
                Value::Number(id),
            ),
            lives(*final(env)) == lives(*old(env)),
    {
        proof {
            lemma_symbols();
        }
        let last: u64 = host::instance_get_number(env, KEY_SUB_SEQ).unwrap_or(0);
        let next: u64 = last.wrapping_add(1);
        host::instance_set_number(env, KEY_SUB_SEQ, next);
        next
    }

    /// Adds `id` to the payer's index.
    fn record_payer_subscription(env: &mut Env, payer: &Address, id: u64)
        requires
            ledger(*old(env)).count(KEY_PAYER_SUB_COUNT@, *payer) < u32::MAX,
        ensures
            ledger(*final(env)) == ledger(*old(env)).indexed(
                KEY_PAYER_SUB@,
                KEY_PAYER_SUB_COUNT@,
                *payer,
                id,
            ),
            forall|k: Key|
                ledger(*old(env)).entries.contains_key(k) ==> #[trigger] lives(*final(env))[k]
                    == lives(*old(env))[k],
    {
        proof {
            lemma_symbols();
        }
        let count: u32 = host::persistent_get_count(env, KEY_PAYER_SUB_COUNT, payer).unwrap_or(0);
        host::persistent_set_listed(env, KEY_PAYER_SUB, payer, count, id);
        host::persistent_set_count(env, KEY_PAYER_SUB_COUNT, payer, count + 1);
    }

    /// Adds `id` to the recipient's index.
    fn record_recipient_subscription(env: &mut Env, recipient: &Address, id: u64)
        requires
            ledger(*old(env)).count(KEY_RECIPIENT_SUB_COUNT@, *recipient) < u32::MAX,
        ensures
            ledger(*final(env)) == ledger(*old(env)).indexed(
                KEY_RECIPIENT_SUB@,
                KEY_RECIPIENT_SUB_COUNT@,
                *recipient,
                id,
            ),
            forall|k: Key|
                ledger(*old(env)).entries.contains_key(k) ==> #[trigger] lives(*final(env))[k]
                    == lives(*old(env))[k],
    {
        proof {
            lemma_symbols();
        }
        let count: u32 = host::persistent_get_count(
            env,
            KEY_RECIPIENT_SUB_COUNT,
            recipient,
        ).unwrap_or(0);
        host::persistent_set_listed(env, KEY_RECIPIENT_SUB, recipient, count, id);
        host::persistent_set_count(env, KEY_RECIPIENT_SUB_COUNT, recipient, count + 1);
    }
}

} // verus!
