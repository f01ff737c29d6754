//! A subscription and the rules of its life: on which terms one may be opened,
//! when a payment is due, what a payment changes, and how long the stored entry
//! has to live. Nothing here touches the host: the time, the configuration and the
//! network's limits are arguments.

use soroban_sdk::Address;
use vstd::prelude::*;

use crate::config::ContractConfig;
use crate::error::StellarSendError;
use crate::fee::{fee_on, fee_overflows, split_fee};

verus! {

/// Seconds between two ledgers, by which a span of time is turned into ledgers.
pub const SUBSCRIPTION_TTL_LEDGER_SECONDS: u64 = 5;

/// Ledgers of one day, added to every lifetime as a cushion against ledgers that
/// close late.
pub const SUBSCRIPTION_TTL_SAFETY_LEDGERS: u64 = 17_280;

/// A recurring payment authorised by `payer`.
#[derive(Debug, PartialEq)]
pub struct Subscription {
    pub payer: Address,
    pub recipient: Address,
    pub token: Address,
    /// Gross amount of every execution; the fee is taken out of it.
    pub amount: i128,
    /// Seconds from one due time to the next.
    pub interval_seconds: u64,
    /// Ledger time at which the subscription may next run.
    pub next_execution_time: u64,
    /// False once the payer has cancelled or `max_executions` is reached. Nothing
    /// makes it true again.
    pub active: bool,
    /// Hard ceiling on the number of executions, or `None` for no ceiling.
    pub max_executions: Option<u32>,
    /// Ledger time past which nothing is executed any more, or `None`.
    pub expiry_time: Option<u64>,
    /// Number of executions so far.
    pub executions_count: u32,
}

impl Clone for Subscription {
    fn clone(&self) -> (r: Subscription)
        ensures
            r == *self,
    {
        Subscription {
            payer: self.payer.clone(),
            recipient: self.recipient.clone(),
            token: self.token.clone(),
            amount: self.amount,
            interval_seconds: self.interval_seconds,
            next_execution_time: self.next_execution_time,
            active: self.active,
            max_executions: self.max_executions,
            expiry_time: self.expiry_time,
            executions_count: self.executions_count,
        }
    }
}

/// What one execution does: the subscription afterwards and the two legs that the
/// gross amount is split into.
pub struct Execution {
    pub after: Subscription,
    pub fee_amount: i128,
    pub net_amount: i128,
}

/// The larger of two integers.
pub open spec fn max_of(a: int, b: int) -> int {
    if a >= b {
        a
    } else {
        b
    }
}

/// The smaller of two integers.
pub open spec fn min_of(a: int, b: int) -> int {
    if a <= b {
        a
    } else {
        b
    }
}

/// The first objection to the terms of a new subscription, if there is one.
pub open spec fn terms_error(
    amount: i128,
    interval_seconds: u64,
    self_payment: bool,
    start_time: u64,
    max_executions: Option<u32>,
    expiry_time: Option<u64>,
) -> Option<StellarSendError> {
    if amount <= 0 {
        Some(StellarSendError::InvalidAmount)
    } else if interval_seconds == 0 {
        Some(StellarSendError::InvalidInterval)
    } else if self_payment {
        Some(StellarSendError::SelfPaymentNotAllowed)
    } else if max_executions == Some(0u32) {
        Some(StellarSendError::InvalidMaxExecutions)
    } else if expiry_time is Some && expiry_time->0 <= start_time {
        Some(StellarSendError::InvalidExpiry)
    } else {
        None
    }
}

/// The subscription that is stored for terms that nothing speaks against.
pub open spec fn opened(
    payer: Address,
    recipient: Address,
    token: Address,
    amount: i128,
    interval_seconds: u64,
    start_time: u64,
    max_executions: Option<u32>,
    expiry_time: Option<u64>,
) -> Subscription {
    Subscription {
        payer,
        recipient,
        token,
        amount,
        interval_seconds,
        next_execution_time: start_time,
        active: true,
        max_executions,
        expiry_time,
        executions_count: 0,
    }
}

impl Subscription {
    /// Why an execution at time `now` is refused, if it is. Past the expiry that is the
    /// reason, whether a payment is due or not.
    pub open spec fn refusal(self, now: u64) -> Option<StellarSendError> {
        if !self.active {
            Some(StellarSendError::SubscriptionInactive)
        } else if self.expiry_time is Some && now > self.expiry_time->0 {
            Some(StellarSendError::SubscriptionExpired)
        } else if now < self.next_execution_time {
            Some(StellarSendError::SubscriptionNotDue)
        } else {
            None
        }
    }

    /// Whether the execution after `count` others is the last one allowed.
    pub open spec fn reaches_cap(self, count: int) -> bool {
        self.max_executions is Some && count >= self.max_executions->0
    }

    /// The subscription after one more execution: due exactly one interval later,
    /// counted, and inactive if that reached the cap. `None` if the next due time or
    /// the count does not fit.
    pub open spec fn advanced(self) -> Option<Subscription> {
        if self.next_execution_time + self.interval_seconds > u64::MAX || self.executions_count
            + 1 > u32::MAX {
            None
        } else {
            Some(
                Subscription {
                    next_execution_time: (self.next_execution_time + self.interval_seconds) as u64,
                    executions_count: (self.executions_count + 1) as u32,
                    active: self.active && !self.reaches_cap(self.executions_count + 1),
                    ..self
                },
            )
        }
    }

    /// The subscription after its payer has cancelled it.
    pub open spec fn cancelled(self) -> Subscription {
        Subscription { active: false, ..self }
    }

    /// What an execution at time `now` under `config` does, or why it is refused.
    pub open spec fn execution(self, now: u64, config: Option<ContractConfig>) -> Result<
        Execution,
        StellarSendError,
    > {
        match (self.refusal(now), config, self.advanced()) {
            (Some(e), _, _) => Err(e),
            (None, None, _) => Err(StellarSendError::NotInitialized),
            (None, Some(c), Some(after)) if !fee_overflows(self.amount, c.fee_bps) => {
                let fee = fee_on(self.amount as int, c.fee_bps as int);
                Ok(
                    Execution {
                        after,
                        fee_amount: fee as i128,
                        net_amount: (self.amount - fee) as i128,
                    },
                )
            },
            (None, Some(_), _) => Err(StellarSendError::ArithmeticOverflow),
        }
    }

    /// Seconds from `now` that the stored entry has to outlive: one interval, the
    /// time until it is due, and the time until it expires.
    pub open spec fn horizon(self, now: u64) -> int {
        max_of(
            max_of(self.interval_seconds as int, self.next_execution_time - now),
            if self.expiry_time is Some {
                self.expiry_time->0 - now
            } else {
                0
            },
        )
    }

    /// Ledgers that the horizon asks for: its seconds turned into ledgers, rounded up,
    /// and a day's cushion.
    pub open spec fn wanted_ttl(self, now: u64) -> int {
        (self.horizon(now) + (SUBSCRIPTION_TTL_LEDGER_SECONDS - 1))
            / (SUBSCRIPTION_TTL_LEDGER_SECONDS as int) + SUBSCRIPTION_TTL_SAFETY_LEDGERS
    }

    /// The lifetime, in ledgers, that the entry is extended to: what is wanted, but no
    /// more than the network's maximum.
    pub open spec fn ttl_target(self, now: u64, max_ttl: u32) -> int {
        min_of(self.wanted_ttl(now), max_ttl as int)
    }

    /// The remaining life, in ledgers, from which on down the entry is extended: anything
    /// short of the target.
    pub open spec fn ttl_threshold(self, now: u64, max_ttl: u32) -> int {
        max_of(self.ttl_target(now, max_ttl) - 1, 0)
    }
}

/// Checks the terms of a new subscription; `self_payment` tells whether payer and
/// recipient are the same address.
pub fn check_terms(
    amount: i128,
    interval_seconds: u64,
    self_payment: bool,
    start_time: u64,
    max_executions: Option<u32>,
    expiry_time: Option<u64>,
) -> (r: Result<(), StellarSendError>)
    ensures
        r == match terms_error(
            amount,
            interval_seconds,
            self_payment,
            start_time,
            max_executions,
            expiry_time,
        ) {
            Some(e) => Err::<(), StellarSendError>(e),
            None => Ok::<(), StellarSendError>(()),
        },
{
    if amount <= 0 {
        return Err(StellarSendError::InvalidAmount);
    }
    if interval_seconds == 0 {
        return Err(StellarSendError::InvalidInterval);
    }
    if self_payment {
        return Err(StellarSendError::SelfPaymentNotAllowed);
    }
    if let Some(max) = max_executions {
        if max == 0 {
            return Err(StellarSendError::InvalidMaxExecutions);
        }
    }
    if let Some(expiry) = expiry_time {
        if expiry <= start_time {
            return Err(StellarSendError::InvalidExpiry);
        }
    }
    Ok(())
}

/// Decides an execution of `sub` at time `now` under `config`.
pub fn plan_execution(sub: Subscription, now: u64, config: &Option<ContractConfig>) -> (r: Result<
    Execution,
    StellarSendError,
>)
    ensures
        r == sub.execution(now, *config),
{
    if !sub.active {
        return Err(StellarSendError::SubscriptionInactive);
    }
    if let Some(expiry) = sub.expiry_time {
        if now > expiry {
            return Err(StellarSendError::SubscriptionExpired);
        }
    }
    if now < sub.next_execution_time {
        return Err(StellarSendError::SubscriptionNotDue);
    }
    let fee_bps: u32 = match config {
        Some(c) => c.fee_bps,
        None => return Err(StellarSendError::NotInitialized),
    };
    let (fee_amount, net_amount): (i128, i128) = match split_fee(sub.amount, fee_bps) {
        Ok(legs) => legs,
        Err(e) => return Err(e),
    };
    // One interval from the last due time, not from now: a late call does not move
    // the whole schedule.
    let next: u64 = match sub.next_execution_time.checked_add(sub.interval_seconds) {
        Some(t) => t,
        None => return Err(StellarSendError::ArithmeticOverflow),
    };
    let count: u32 = match sub.executions_count.checked_add(1) {
        Some(n) => n,
        None => return Err(StellarSendError::ArithmeticOverflow),
    };
    let mut after = sub;
    after.next_execution_time = next;
    after.executions_count = count;
    if let Some(max) = after.max_executions {
        if count >= max {
            after.active = false;
        }
    }
    Ok(Execution { after, fee_amount, net_amount })
}

/// The lifetime, in ledgers, that the entry of `sub` is to have at time `now`, where
/// the network allows `max_ttl` at most.
pub fn lifetime_target(sub: &Subscription, now: u64, max_ttl: u32) -> (extend_to: u32)
    ensures
        extend_to == sub.ttl_target(now, max_ttl),
{
    let until_due: u64 = sub.next_execution_time.saturating_sub(now);
    let until_expiry: u64 = match sub.expiry_time {
        Some(expiry) => expiry.saturating_sub(now),
        None => 0,
    };
    // The interval counts even when a payment is already due, so that the entry
    // survives to the one after it.
    let horizon_seconds: u64 = sub.interval_seconds.max(until_due).max(until_expiry);
    let horizon_ledgers: u64 = horizon_seconds.saturating_add(SUBSCRIPTION_TTL_LEDGER_SECONDS - 1)
        / SUBSCRIPTION_TTL_LEDGER_SECONDS;
    let requested: u64 = horizon_ledgers.saturating_add(SUBSCRIPTION_TTL_SAFETY_LEDGERS);
    requested.min(max_ttl as u64) as u32
}

} // verus!
