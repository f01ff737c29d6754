//! Configuring the contract, on the Soroban host.

use soroban_sdk::testutils::{Address as _, ContractFunctionSet, EnvTestConfig};
use soroban_sdk::{Address, Env, Error, Val};
use stellar_send::config::{ContractConfig, MAX_FEE_BPS};
use stellar_send::{StellarSendContract, StellarSendError};

struct Shell;

impl ContractFunctionSet for Shell {
    fn call(&self, _func: &str, _env: Env, _args: &[Val]) -> Option<Val> {
        None
    }
}

struct Client {
    env: Env,
    address: Address,
}

impl Client {
    fn initialize(
        &self,
        admin: &Address,
        fee_bps: u32,
        fee_collector: &Address,
    ) -> Result<(), StellarSendError> {
        let mut env = self.env.clone();
        self.env.as_contract(&self.address, || {
            StellarSendContract::initialize(
                &mut env,
                admin.clone(),
                fee_bps,
                fee_collector.clone(),
            )
        })
    }

    fn set_fee(&self, fee_bps: u32) -> Result<(), StellarSendError> {
        let mut env = self.env.clone();
        self.env.as_contract(&self.address, || StellarSendContract::set_fee(&mut env, fee_bps))
    }

    fn get_config(&self) -> Result<ContractConfig, StellarSendError> {
        self.env.as_contract(&self.address, || StellarSendContract::get_config(&self.env))
    }
}

#[allow(deprecated)]
fn setup() -> (Client, Address, Address) {
    let env = Env::new_with_config(EnvTestConfig { capture_snapshot_at_drop: false });
    env.mock_all_auths();
    let admin = Address::generate(&env);
    let fee_collector = Address::generate(&env);
    let address = env.register_contract(None, Shell);
    (Client { env, address }, admin, fee_collector)
}

#[test]
fn test_initialize() {
    let (client, admin, fee_collector) = setup();

    client.initialize(&admin, 100u32, &fee_collector).unwrap();

    let config = client.get_config().unwrap();
    assert_eq!(config.admin, admin);
    assert_eq!(config.fee_bps, 100u32);
    assert_eq!(config.fee_collector, fee_collector);
    assert!(config.active);
}

#[test]
fn test_initialize_already_initialized() {
    let (client, admin, fee_collector) = setup();

    client.initialize(&admin, 100u32, &fee_collector).unwrap();

    let result = client.initialize(&admin, 100u32, &fee_collector);
    assert_eq!(result, Err(StellarSendError::AlreadyInitialized));
}

#[test]
fn test_initialize_invalid_fee_bps() {
    let (client, admin, fee_collector) = setup();

    let result = client.initialize(&admin, MAX_FEE_BPS + 1, &fee_collector);
    assert_eq!(result, Err(StellarSendError::InvalidFeeBps));
}

#[test]
fn test_initialize_accepts_max_fee_boundary() {
    let (client, admin, fee_collector) = setup();

    client.initialize(&admin, MAX_FEE_BPS, &fee_collector).unwrap();

    let config = client.get_config().unwrap();
    assert_eq!(config.fee_bps, MAX_FEE_BPS);
}

#[test]
fn test_initialize_rejects_100_percent_fee() {
    let (client, admin, fee_collector) = setup();

    let result = client.initialize(&admin, 10_000u32, &fee_collector);
    assert_eq!(result, Err(StellarSendError::InvalidFeeBps));
}

#[test]
fn test_set_fee_requires_admin() {
    let (client, admin, fee_collector) = setup();
    client.initialize(&admin, 100u32, &fee_collector).unwrap();

    client.set_fee(50u32).unwrap();
    let config = client.get_config().unwrap();
    assert_eq!(config.fee_bps, 50u32);

    assert_ne!(50u32, 100u32);
}

#[test]
fn test_set_fee_invalid_bps() {
    let (client, admin, fee_collector) = setup();
    client.initialize(&admin, 100u32, &fee_collector).unwrap();

    let result = client.set_fee(MAX_FEE_BPS + 1);
    assert_eq!(result, Err(StellarSendError::InvalidFeeBps));
}

#[test]
fn test_set_fee_accepts_max_fee_boundary() {
    let (client, admin, fee_collector) = setup();
    client.initialize(&admin, 100u32, &fee_collector).unwrap();

    client.set_fee(MAX_FEE_BPS).unwrap();
    let config = client.get_config().unwrap();
    assert_eq!(config.fee_bps, MAX_FEE_BPS);
}

#[test]
fn test_set_fee_rejects_100_percent_fee() {
    let (client, admin, fee_collector) = setup();
    client.initialize(&admin, 100u32, &fee_collector).unwrap();

    let result = client.set_fee(10_000u32);
    assert_eq!(result, Err(StellarSendError::InvalidFeeBps));

    // The fee must remain unchanged after the rejected attempt.
    let config = client.get_config().unwrap();
    assert_eq!(config.fee_bps, 100u32);
}

#[test]
fn nothing_is_configured_at_first() {
    let (client, _admin, _fee_collector) = setup();
    assert_eq!(client.get_config(), Err(StellarSendError::NotInitialized));
    assert_eq!(client.set_fee(1), Err(StellarSendError::NotInitialized));
}

#[test]
fn a_fee_change_keeps_the_other_settings() {
    let (client, admin, fee_collector) = setup();
    client.initialize(&admin, 100u32, &fee_collector).unwrap();
    let before = client.get_config().unwrap();
    client.set_fee(7u32).unwrap();
    let after = client.get_config().unwrap();
    assert_eq!(after, ContractConfig { fee_bps: 7, ..before.clone() });
    assert_eq!(before.fee_bps, 100);
}

#[test]
fn a_fee_change_without_the_admin_is_undone() {
    let (client, admin, fee_collector) = setup();
    client.initialize(&admin, 100u32, &fee_collector).unwrap();
    client.env.set_auths(&[]);
    let mut env = client.env.clone();
    let result = client.env.try_as_contract::<_, Error>(&client.address, || {
        StellarSendContract::set_fee(&mut env, 50u32)
    });
    assert!(result.is_err());
    assert_eq!(client.get_config().unwrap().fee_bps, 100);
}
