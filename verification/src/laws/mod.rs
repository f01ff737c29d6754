//! What holds of the contract as a whole, for every ledger and every answer of the host.

pub mod bursts;
pub mod fees;
pub mod histories;
pub mod index;
pub mod integrity;
pub mod life;
pub mod lives;
pub mod operations;
