//! The contract's type; its operations stand with the part of the contract that they
//! belong to.

use vstd::prelude::*;

verus! {

/// The payment contract.
pub struct StellarSendContract;

} // verus!
