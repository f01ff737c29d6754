//! A payment contract for the Soroban host: subscriptions, that is, recurring payments
//! which a payer authorises once and anyone may trigger when they are due.
//!
//! The parts:
//!
//! * [`fee`]: the split of an amount into the fee and the rest;
//! * [`schedule`]: a subscription and the rules of its life, free of the host;
//! * [`ledger`]: storage and host exchanges as mathematical values;
//! * [`config`] and [`subscription`]: the contract's operations, each with the exact
//!   change that it makes to the ledger;
//! * [`laws`]: what follows for whole lives of subscriptions and for the storage.
//!
//! The calls into the host stand in one file, `host`.

pub mod config;
mod contract;
mod error;
pub mod fee;
mod host;
pub mod laws;
pub mod ledger;
pub mod schedule;
pub mod subscription;

pub use contract::StellarSendContract;
pub use error::StellarSendError;
