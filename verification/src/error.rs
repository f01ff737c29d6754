//! The reasons for which the contract refuses a request.

use vstd::prelude::*;

verus! {

/// Why a request was refused.
#[derive(Clone, Copy, Debug, PartialEq, Eq, Structural)]
pub enum StellarSendError {
    /// The contract already has a configuration.
    AlreadyInitialized,
    /// The contract has no configuration yet.
    NotInitialized,
    /// The fee rate is above [`crate::config::MAX_FEE_BPS`].
    InvalidFeeBps,
    /// The amount is zero or negative.
    InvalidAmount,
    /// The interval between two executions is zero.
    InvalidInterval,
    /// Payer and recipient are the same address.
    SelfPaymentNotAllowed,
    /// A cap of zero executions, which could never run.
    InvalidMaxExecutions,
    /// An expiry that is not after the first due time.
    InvalidExpiry,
    /// No subscription is stored under the id.
    SubscriptionNotFound,
    /// The subscription was cancelled or has reached its cap.
    SubscriptionInactive,
    /// The next due time lies in the future.
    SubscriptionNotDue,
    /// The expiry time has passed.
    SubscriptionExpired,
    /// A sum or product does not fit its type.
    ArithmeticOverflow,
}

} // verus!
