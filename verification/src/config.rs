//! The contract's configuration: who administers it, which fee it takes and where the
//! fee goes.

use soroban_sdk::{Address, Env};
use vstd::prelude::*;

use crate::contract::StellarSendContract;
use crate::error::StellarSendError;
use crate::host;
use crate::ledger::{ledger, lives, Key, Ledger, Step, Value};

verus! {

/// Symbol of the instance entry with the configuration.
pub const KEY_CONFIG: &'static str = "CONFIG";

/// The highest fee rate that can be set: a tenth of the amount.
pub const MAX_FEE_BPS: u32 = 1_000;

/// Settings that every payment goes by.
#[derive(Debug, PartialEq)]
pub struct ContractConfig {
    /// The address that may change the settings.
    pub admin: Address,
    /// Fee rate in basis points.
    pub fee_bps: u32,
    /// Where the fees go.
    pub fee_collector: Address,
    pub active: bool,
}

impl Clone for ContractConfig {
    fn clone(&self) -> (r: ContractConfig)
        ensures
            r == *self,
    {
        ContractConfig {
            admin: self.admin.clone(),
            fee_bps: self.fee_bps,
            fee_collector: self.fee_collector.clone(),
            active: self.active,
        }
    }
}

impl Ledger {
    /// The ledger with another configuration.
    pub open spec fn configured(self, config: ContractConfig) -> Ledger {
        self.put(Key::Instance(KEY_CONFIG@), Value::Config(config))
    }

    /// What the first configuration of the contract does and returns.
    pub open spec fn initialization(self, admin: Address, fee_bps: u32, fee_collector: Address) -> (
        Ledger,
        Result<(), StellarSendError>,
    ) {
        if self.config() is Some {
            (self, Err(StellarSendError::AlreadyInitialized))
        } else if fee_bps > MAX_FEE_BPS {
            (self, Err(StellarSendError::InvalidFeeBps))
        } else {
            (
                self.configured(ContractConfig { admin, fee_bps, fee_collector, active: true }),
                Ok(()),
            )
        }
    }

    /// What a change of the fee rate does and returns.
    pub open spec fn fee_change(self, fee_bps: u32) -> (Ledger, Result<(), StellarSendError>) {
        match self.config() {
            None => (self, Err(StellarSendError::NotInitialized)),
            Some(config) => {
                let asked = self.noted(Step::Authorized(config.admin));
                if fee_bps > MAX_FEE_BPS {
                    (asked, Err(StellarSendError::InvalidFeeBps))
                } else {
                    (asked.configured(ContractConfig { fee_bps, ..config }), Ok(()))
                }
            },
        }
    }
}

impl StellarSendContract {
    /// Gives the contract its first configuration.
    pub fn initialize(env: &mut Env, admin: Address, fee_bps: u32, fee_collector: Address) -> (r:
        Result<(), StellarSendError>)
        ensures
            (ledger(*final(env)), r) == ledger(*old(env)).initialization(
                admin,
                fee_bps,
                fee_collector,
            ),
            lives(*final(env)) == lives(*old(env)),
    {
        if Self::stored_config(env).is_some() {
            return Err(StellarSendError::AlreadyInitialized);
        }
        if fee_bps > MAX_FEE_BPS {
            return Err(StellarSendError::InvalidFeeBps);
        }
        proof {
            lemma_config_symbol();
        }
        let config = ContractConfig { admin, fee_bps, fee_collector, active: true };
        host::instance_set_settings(env, KEY_CONFIG, &config);
        Ok(())
    }

    /// The current configuration.
    pub fn get_config(env: &Env) -> (r: Result<ContractConfig, StellarSendError>)
        ensures
            r == match ledger(*env).config() {
                Some(config) => Ok::<ContractConfig, StellarSendError>(config),
                None => Err::<ContractConfig, StellarSendError>(StellarSendError::NotInitialized),
            },
    {
        match Self::stored_config(env) {
            Some(config) => Ok(config),
            None => Err(StellarSendError::NotInitialized),
        }
    }

    /// Changes the fee rate. Only the administrator may do so.
    pub fn set_fee(env: &mut Env, fee_bps: u32) -> (r: Result<(), StellarSendError>)
        ensures
            (ledger(*final(env)), r) == ledger(*old(env)).fee_change(fee_bps),
            lives(*final(env)) == lives(*old(env)),
    {
        let mut config = match Self::stored_config(env) {
            Some(config) => config,
            None => return Err(StellarSendError::NotInitialized),
        };
        host::require_auth(env, &config.admin);
        if fee_bps > MAX_FEE_BPS {
            return Err(StellarSendError::InvalidFeeBps);
        }
        proof {
            lemma_config_symbol();
        }
        config.fee_bps = fee_bps;
        host::instance_set_settings(env, KEY_CONFIG, &config);
        Ok(())
    }

    /// The configuration, where there is one.
    pub(crate) fn stored_config(env: &Env) -> (r: Option<ContractConfig>)
        ensures
            r == ledger(*env).config(),
    {
        proof {
            lemma_config_symbol();
        }
        host::instance_get_settings(env, KEY_CONFIG)
    }
}

/// The key of the configuration is a symbol.
proof fn lemma_config_symbol()
    ensures
        crate::ledger::symbol_text(KEY_CONFIG@),
{
    reveal_strlit("CONFIG");
}

} // verus!
