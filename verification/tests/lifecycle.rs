//! What holds of every subscription, tried out on the Soroban host: errors, stored
//! fields, events, indexes, storage lifetimes and authorisation.

use soroban_sdk::testutils::storage::Persistent as _;
use soroban_sdk::testutils::{
    Address as _, ContractFunctionSet, EnvTestConfig, Events as _, Ledger as _,
};
use soroban_sdk::token::{Client as TokenClient, StellarAssetClient};
use soroban_sdk::{Address, Env, Error, IntoVal, Symbol, Val};
use stellar_send::ledger::{
    KEY_PAYER_SUB_COUNT, KEY_RECIPIENT_SUB, KEY_RECIPIENT_SUB_COUNT, KEY_SUB, KEY_SUB_SEQ,
};
use stellar_send::schedule::Subscription;
use stellar_send::subscription::{
    MAX_SUBSCRIPTIONS_PAGE, TOPIC_CANCELLED, TOPIC_CREATED, TOPIC_EXECUTED,
};
use stellar_send::{StellarSendContract, StellarSendError};

struct Shell;

impl ContractFunctionSet for Shell {
    fn call(&self, _func: &str, _env: Env, _args: &[Val]) -> Option<Val> {
        None
    }
}

/// The contract as it is seen by its callers: each call is one run of the contract.
struct Client {
    env: Env,
    address: Address,
}

impl Client {
    fn initialize(&self, admin: &Address, fee_bps: &u32, fee_collector: &Address) {
        let mut env = self.env.clone();
        self.env
            .as_contract(&self.address, || {
                StellarSendContract::initialize(
                    &mut env,
                    admin.clone(),
                    *fee_bps,
                    fee_collector.clone(),
                )
            })
            .unwrap();
    }

    #[allow(clippy::too_many_arguments)]
    fn try_create_subscription(
        &self,
        payer: &Address,
        recipient: &Address,
        token: &Address,
        amount: &i128,
        interval_seconds: &u64,
        start_time: &u64,
        max_executions: &Option<u32>,
        expiry_time: &Option<u64>,
    ) -> Result<u64, StellarSendError> {
        let mut env = self.env.clone();
        self.env.as_contract(&self.address, || {
            StellarSendContract::create_subscription(
                &mut env,
                payer.clone(),
                recipient.clone(),
                token.clone(),
                *amount,
                *interval_seconds,
                *start_time,
                *max_executions,
                *expiry_time,
            )
        })
    }

    #[allow(clippy::too_many_arguments)]
    fn create_subscription(
        &self,
        payer: &Address,
        recipient: &Address,
        token: &Address,
        amount: &i128,
        interval_seconds: &u64,
        start_time: &u64,
        max_executions: &Option<u32>,
        expiry_time: &Option<u64>,
    ) -> u64 {
        self.try_create_subscription(
            payer,
            recipient,
            token,
            amount,
            interval_seconds,
            start_time,
            max_executions,
            expiry_time,
        )
        .unwrap()
    }

    fn create_subscription_unless_full(
        &self,
        payer: &Address,
        recipient: &Address,
        token: &Address,
        amount: &i128,
    ) -> Option<Result<u64, StellarSendError>> {
        let mut env = self.env.clone();
        self.env.as_contract(&self.address, || {
            StellarSendContract::create_subscription_unless_full(
                &mut env,
                payer.clone(),
                recipient.clone(),
                token.clone(),
                *amount,
                600,
                0,
                None,
                None,
            )
        })
    }

    /// Writes the number of ids in an address's index.
    fn set_count(&self, symbol: &str, owner: &Address, count: u32) {
        self.env.as_contract(&self.address, || {
            let key = (Symbol::new(&self.env, symbol), owner.clone());
            self.env.storage().persistent().set(&key, &count)
        })
    }

    fn set_fee(&self, fee_bps: u32) {
        let mut env = self.env.clone();
        self.env
            .as_contract(&self.address, || StellarSendContract::set_fee(&mut env, fee_bps))
            .unwrap();
    }

    fn try_cancel_subscription(&self, id: &u64) -> Result<(), StellarSendError> {
        let mut env = self.env.clone();
        self.env.as_contract(&self.address, || {
            StellarSendContract::cancel_subscription(&mut env, *id)
        })
    }

    fn cancel_subscription(&self, id: &u64) {
        self.try_cancel_subscription(id).unwrap()
    }

    fn try_execute_subscription(&self, id: &u64) -> Result<i128, StellarSendError> {
        let mut env = self.env.clone();
        self.env.as_contract(&self.address, || {
            StellarSendContract::execute_subscription(&mut env, *id)
        })
    }

    fn execute_subscription(&self, id: &u64) -> i128 {
        self.try_execute_subscription(id).unwrap()
    }

    fn try_keep_subscription_alive(&self, id: &u64) -> Result<(), StellarSendError> {
        let mut env = self.env.clone();
        self.env.as_contract(&self.address, || {
            StellarSendContract::keep_subscription_alive(&mut env, *id)
        })
    }

    fn keep_subscription_alive(&self, id: &u64) {
        self.try_keep_subscription_alive(id).unwrap()
    }

    fn try_get_subscription(&self, id: &u64) -> Result<Subscription, StellarSendError> {
        self.env.as_contract(&self.address, || {
            StellarSendContract::get_subscription(&self.env, *id)
        })
    }

    fn get_subscription(&self, id: &u64) -> Subscription {
        self.try_get_subscription(id).unwrap()
    }

    fn get_subscriptions_for_payer(
        &self,
        payer: &Address,
        start_index: &u32,
        limit: &u32,
    ) -> soroban_sdk::Vec<u64> {
        self.env.as_contract(&self.address, || {
            StellarSendContract::get_subscriptions_for_payer(
                &self.env,
                payer.clone(),
                *start_index,
                *limit,
            )
        })
    }

    fn get_payer_subscription_count(&self, payer: &Address) -> u32 {
        self.env.as_contract(&self.address, || {
            StellarSendContract::get_payer_subscription_count(&self.env, payer.clone())
        })
    }

    fn get_subscriptions_for_recipient(
        &self,
        recipient: &Address,
        start_index: &u32,
        limit: &u32,
    ) -> soroban_sdk::Vec<u64> {
        self.env.as_contract(&self.address, || {
            StellarSendContract::get_subscriptions_for_recipient(
                &self.env,
                recipient.clone(),
                *start_index,
                *limit,
            )
        })
    }

    fn get_recipient_subscription_count(&self, recipient: &Address) -> u32 {
        self.env.as_contract(&self.address, || {
            StellarSendContract::get_recipient_subscription_count(&self.env, recipient.clone())
        })
    }

    /// How many more ledgers the entry of a subscription lives.
    fn ttl(&self, id: &u64) -> u32 {
        self.env.as_contract(&self.address, || {
            self.env.storage().persistent().get_ttl(&(Symbol::new(&self.env, KEY_SUB), *id))
        })
    }
}

fn new_env() -> Env {
    let env = Env::new_with_config(EnvTestConfig { capture_snapshot_at_drop: false });
    env.mock_all_auths();
    env
}

#[allow(deprecated)]
fn register(env: &Env) -> Client {
    Client { env: env.clone(), address: env.register_contract(None, Shell) }
}

/// A fresh host with the contract and an asset.
fn setup() -> (Env, Client, Address, Address, Address, Address) {
    let env = new_env();
    let admin = Address::generate(&env);
    let fee_collector = Address::generate(&env);
    let client = register(&env);
    let token_admin = Address::generate(&env);
    let token = env.register_stellar_asset_contract_v2(token_admin.clone()).address();
    (env, client, admin, fee_collector, token, token_admin)
}

/// Mints `amount` of the asset to `to`.
fn mint(env: &Env, token: &Address, _admin: &Address, to: &Address, amount: i128) {
    StellarAssetClient::new(env, token).mint(to, &amount);
}

/// A host at time 1000 with a configured contract and a payer that owns 10 000 and lets
/// the contract have them.
struct Stage {
    env: Env,
    client: Client,
    token: Address,
    money: TokenClient<'static>,
    collector: Address,
    payer: Address,
    recipient: Address,
}

impl Stage {
    fn new(fee_bps: u32) -> Stage {
        let (env, client, admin, collector, token, token_admin) = setup();
        env.ledger().set_timestamp(1_000);
        client.initialize(&admin, &fee_bps, &collector);
        let payer = Address::generate(&env);
        let recipient = Address::generate(&env);
        mint(&env, &token, &token_admin, &payer, 10_000);
        let money = TokenClient::new(&env, &token);
        money.approve(&payer, &client.address, &10_000i128, &(env.ledger().sequence() + 1_000));
        Stage { env, client, token, money, collector, payer, recipient }
    }

    fn open(&self, amount: i128, start: u64, max: Option<u32>, expiry: Option<u64>) -> u64 {
        self.client.create_subscription(
            &self.payer,
            &self.recipient,
            &self.token,
            &amount,
            &600,
            &start,
            &max,
            &expiry,
        )
    }

    fn balances(&self) -> (i128, i128, i128) {
        (
            self.money.balance(&self.payer),
            self.money.balance(&self.recipient),
            self.money.balance(&self.collector),
        )
    }

    fn payer_ids(&self, start_index: u32, limit: u32) -> std::vec::Vec<u64> {
        self.client
            .get_subscriptions_for_payer(&self.payer, &start_index, &limit)
            .iter()
            .collect()
    }

    fn recipient_ids(&self, start_index: u32, limit: u32) -> std::vec::Vec<u64> {
        self.client
            .get_subscriptions_for_recipient(&self.recipient, &start_index, &limit)
            .iter()
            .collect()
    }
}

#[test]
fn every_field_is_stored_and_read_back() {
    let s = Stage::new(100);
    let id = s.open(70, 5_000, Some(3), Some(9_000));
    assert_eq!(
        s.client.get_subscription(&id),
        Subscription {
            payer: s.payer.clone(),
            recipient: s.recipient.clone(),
            token: s.token.clone(),
            amount: 70,
            interval_seconds: 600,
            next_execution_time: 5_000,
            active: true,
            max_executions: Some(3),
            expiry_time: Some(9_000),
            executions_count: 0,
        }
    );
    let open_ended = s.open(i128::MAX, u64::MAX, None, None);
    let sub = s.client.get_subscription(&open_ended);
    assert_eq!(sub.amount, i128::MAX);
    assert_eq!(sub.next_execution_time, u64::MAX);
    assert_eq!(sub.max_executions, None);
    assert_eq!(sub.expiry_time, None);
    assert_eq!(sub.clone(), sub);
}

#[test]
fn ids_count_up_from_one() {
    let s = Stage::new(0);
    assert_eq!(s.open(1, 0, None, None), 1);
    assert_eq!(s.open(1, 0, None, None), 2);
    assert_eq!(s.open(1, 0, None, None), 3);
}

#[test]
fn the_id_after_the_largest_is_zero() {
    let s = Stage::new(0);
    s.env.as_contract(&s.client.address, || {
        s.env.storage().instance().set(&Symbol::new(&s.env, KEY_SUB_SEQ), &u64::MAX)
    });
    assert_eq!(s.open(1, 0, None, None), 0);
    assert_eq!(s.open(1, 0, None, None), 1);
}

#[test]
fn a_subscription_needs_a_positive_amount() {
    let s = Stage::new(0);
    for amount in [0, -1, i128::MIN] {
        let result = s.client.try_create_subscription(
            &s.payer, &s.recipient, &s.token, &amount, &600, &0, &None, &None,
        );
        assert_eq!(result, Err(StellarSendError::InvalidAmount));
    }
    assert_eq!(s.client.get_payer_subscription_count(&s.payer), 0);
}

#[test]
fn a_subscription_needs_an_interval() {
    let s = Stage::new(0);
    let result = s.client.try_create_subscription(
        &s.payer, &s.recipient, &s.token, &1, &0, &0, &None, &None,
    );
    assert_eq!(result, Err(StellarSendError::InvalidInterval));
}

#[test]
fn nobody_subscribes_to_themselves() {
    let s = Stage::new(0);
    let result = s.client.try_create_subscription(
        &s.payer, &s.payer, &s.token, &1, &600, &0, &None, &None,
    );
    assert_eq!(result, Err(StellarSendError::SelfPaymentNotAllowed));
    assert_eq!(s.open(1, 0, None, None), 1);
}

#[test]
fn an_expiry_right_after_the_start_is_accepted() {
    let s = Stage::new(0);
    let id = s.open(10, 1_000, Some(1), Some(1_001));
    assert_eq!(s.client.execute_subscription(&id), 10);
}

#[test]
fn an_unknown_id_is_not_found() {
    let s = Stage::new(0);
    let missing = Err(StellarSendError::SubscriptionNotFound);
    assert_eq!(s.client.try_get_subscription(&1), missing.clone());
    assert_eq!(s.client.try_execute_subscription(&1), missing.clone().map(|_| 0));
    assert_eq!(s.client.try_cancel_subscription(&1), missing.clone().map(|_| ()));
    assert_eq!(s.client.try_keep_subscription_alive(&1), missing.map(|_| ()));
}

#[test]
fn what_is_no_subscription_is_not_found() {
    let s = Stage::new(0);
    s.env.as_contract(&s.client.address, || {
        let key = (Symbol::new(&s.env, KEY_SUB), 7u64);
        s.env.storage().persistent().set(&key, &7u64)
    });
    assert_eq!(s.client.try_get_subscription(&7), Err(StellarSendError::SubscriptionNotFound));
}

#[test]
fn an_execution_needs_a_configuration() {
    let (env, client, _admin, _collector, token, _token_admin) = setup();
    let payer = Address::generate(&env);
    let recipient = Address::generate(&env);
    let id = client.create_subscription(&payer, &recipient, &token, &5, &600, &0, &None, &None);
    assert_eq!(client.try_execute_subscription(&id), Err(StellarSendError::NotInitialized));
    assert_eq!(client.get_subscription(&id).executions_count, 0);
}

#[test]
fn a_due_time_past_the_end_of_time_overflows() {
    let s = Stage::new(0);
    let id = s.open(10, u64::MAX - 599, None, None);
    s.env.ledger().set_timestamp(u64::MAX - 599);
    let result = s.client.try_execute_subscription(&id);
    assert_eq!(result, Err(StellarSendError::ArithmeticOverflow));
    assert_eq!(s.client.get_subscription(&id).executions_count, 0);
}

#[test]
fn a_fee_that_does_not_fit_overflows() {
    let s = Stage::new(1);
    let id = s.open(i128::MAX, 0, None, None);
    let result = s.client.try_execute_subscription(&id);
    assert_eq!(result, Err(StellarSendError::ArithmeticOverflow));
}

#[test]
fn a_rejected_request_leaves_everything_as_it_was() {
    let s = Stage::new(100);
    let id = s.open(100, 2_000, None, None);
    let before = (s.client.get_subscription(&id), s.balances(), s.client.ttl(&id));
    assert_eq!(
        s.client.try_execute_subscription(&id),
        Err(StellarSendError::SubscriptionNotDue)
    );
    let result = s.client.try_create_subscription(
        &s.payer, &s.recipient, &s.token, &0, &600, &0, &None, &None,
    );
    assert_eq!(result, Err(StellarSendError::InvalidAmount));
    assert_eq!((s.client.get_subscription(&id), s.balances(), s.client.ttl(&id)), before);
    assert_eq!(s.payer_ids(0, 10), [id]);
}

#[test]
fn only_the_payer_opens_a_subscription() {
    let s = Stage::new(0);
    s.env.set_auths(&[]);
    let mut env = s.env.clone();
    let result = s.env.try_as_contract::<_, Error>(&s.client.address, || {
        StellarSendContract::create_subscription(
            &mut env,
            s.payer.clone(),
            s.recipient.clone(),
            s.token.clone(),
            1,
            600,
            0,
            None,
            None,
        )
    });
    assert!(result.is_err());
    assert_eq!(s.client.get_payer_subscription_count(&s.payer), 0);
    assert_eq!(s.client.try_get_subscription(&1), Err(StellarSendError::SubscriptionNotFound));
}

#[test]
fn only_the_payer_cancels() {
    let s = Stage::new(0);
    let id = s.open(10, 0, None, None);
    s.env.set_auths(&[]);
    let mut env = s.env.clone();
    let result = s.env.try_as_contract::<_, Error>(&s.client.address, || {
        StellarSendContract::cancel_subscription(&mut env, id)
    });
    assert!(result.is_err());
    assert!(s.client.get_subscription(&id).active);
}

#[test]
fn opening_asks_the_payer_and_nobody_else() {
    let s = Stage::new(0);
    s.open(10, 0, None, None);
    let asked: std::vec::Vec<Address> = s.env.auths().iter().map(|a| a.0.clone()).collect();
    assert_eq!(asked, [s.payer.clone()]);
}

#[test]
fn anyone_executes_and_keeps_alive() {
    let s = Stage::new(100);
    let id = s.open(1_000, 1_000, None, None);
    s.env.set_auths(&[]);
    assert_eq!(s.client.execute_subscription(&id), 990);
    s.client.keep_subscription_alive(&id);
    assert_eq!(s.balances(), (9_000, 990, 10));
}

#[test]
fn an_execution_without_enough_allowance_is_undone() {
    let s = Stage::new(0);
    let id = s.open(10_001, 0, None, None);
    let mut env = s.env.clone();
    let result = s.env.try_as_contract::<_, Error>(&s.client.address, || {
        StellarSendContract::execute_subscription(&mut env, id)
    });
    assert!(result.is_err());
    assert_eq!(s.client.get_subscription(&id).executions_count, 0);
    assert_eq!(s.balances(), (10_000, 0, 0));
}

#[test]
fn a_cancelled_subscription_is_never_charged_again() {
    let s = Stage::new(100);
    let id = s.open(1_000, 1_000, None, None);
    assert_eq!(s.client.execute_subscription(&id), 990);
    s.client.cancel_subscription(&id);
    let cancelled = s.client.get_subscription(&id);
    assert!(!cancelled.active);
    for now in [1_600, 2_200, 1_000_000] {
        s.env.ledger().set_timestamp(now);
        assert_eq!(
            s.client.try_execute_subscription(&id),
            Err(StellarSendError::SubscriptionInactive)
        );
    }
    assert_eq!(s.client.get_subscription(&id), cancelled);
    assert_eq!(s.balances(), (9_000, 990, 10));
}

#[test]
fn a_second_cancellation_is_refused() {
    let s = Stage::new(0);
    let id = s.open(10, 0, None, None);
    s.client.cancel_subscription(&id);
    assert_eq!(
        s.client.try_cancel_subscription(&id),
        Err(StellarSendError::SubscriptionInactive)
    );
    assert!(!s.client.get_subscription(&id).active);
}

#[test]
fn nothing_revives_a_capped_subscription() {
    let s = Stage::new(0);
    let id = s.open(10, 1_000, Some(1), None);
    s.client.execute_subscription(&id);
    assert!(!s.client.get_subscription(&id).active);
    s.client.keep_subscription_alive(&id);
    assert_eq!(
        s.client.try_cancel_subscription(&id),
        Err(StellarSendError::SubscriptionInactive)
    );
    assert_eq!(
        s.client.try_execute_subscription(&id),
        Err(StellarSendError::SubscriptionInactive)
    );
    assert!(!s.client.get_subscription(&id).active);
}

#[test]
fn a_late_call_does_not_move_the_schedule() {
    let s = Stage::new(0);
    let id = s.open(10, 1_000, None, None);
    s.env.ledger().set_timestamp(1_599);
    s.client.execute_subscription(&id);
    assert_eq!(s.client.get_subscription(&id).next_execution_time, 1_600);
    s.env.ledger().set_timestamp(1_600);
    s.client.execute_subscription(&id);
    assert_eq!(s.client.get_subscription(&id).next_execution_time, 2_200);
}

#[test]
fn one_interval_gives_one_payment() {
    let s = Stage::new(0);
    let id = s.open(10, 1_000, None, None);
    s.client.execute_subscription(&id);
    for now in [1_000, 1_300, 1_599] {
        s.env.ledger().set_timestamp(now);
        assert_eq!(
            s.client.try_execute_subscription(&id),
            Err(StellarSendError::SubscriptionNotDue)
        );
    }
    assert_eq!(s.balances(), (9_990, 10, 0));
}

#[test]
fn a_payment_at_the_expiry_time_is_made() {
    let s = Stage::new(0);
    let id = s.open(10, 1_000, None, Some(1_600));
    s.env.ledger().set_timestamp(1_600);
    s.client.execute_subscription(&id);
    s.client.execute_subscription(&id);
    s.env.ledger().set_timestamp(2_200);
    let result = s.client.try_execute_subscription(&id);
    assert_eq!(result, Err(StellarSendError::SubscriptionExpired));
    assert!(s.client.get_subscription(&id).active);
    assert_eq!(s.balances(), (9_980, 20, 0));
}

#[test]
fn past_the_expiry_is_expired_before_the_due_time_too() {
    let s = Stage::new(0);
    s.env.ledger().set_timestamp(0);
    let id = s.client.create_subscription(
        &s.payer, &s.recipient, &s.token, &1_000, &600, &0, &None, &Some(500),
    );
    assert_eq!(s.client.execute_subscription(&id), 1_000);
    s.env.ledger().set_timestamp(500);
    assert_eq!(
        s.client.try_execute_subscription(&id),
        Err(StellarSendError::SubscriptionNotDue)
    );
    for now in [501, 550, 600, 10_000] {
        s.env.ledger().set_timestamp(now);
        assert_eq!(
            s.client.try_execute_subscription(&id),
            Err(StellarSendError::SubscriptionExpired)
        );
    }
    let sub = s.client.get_subscription(&id);
    assert!(sub.active);
    assert_eq!(sub.executions_count, 1);
    assert_eq!(s.balances(), (9_000, 1_000, 0));
}

#[test]
fn an_expiry_bounds_what_can_be_made_up_for() {
    let s = Stage::new(0);
    let id = s.open(10, 1_000, None, Some(2_300));
    s.env.ledger().set_timestamp(2_300);
    for _ in 0..3 {
        s.client.execute_subscription(&id);
    }
    assert_eq!(
        s.client.try_execute_subscription(&id),
        Err(StellarSendError::SubscriptionNotDue)
    );
    s.env.ledger().set_timestamp(2_800);
    assert_eq!(
        s.client.try_execute_subscription(&id),
        Err(StellarSendError::SubscriptionExpired)
    );
    assert_eq!(s.balances(), (9_970, 30, 0));
}

#[test]
fn fee_and_rest_add_up_to_the_amount() {
    let s = Stage::new(33);
    let id = s.open(1_234, 1_000, None, None);
    assert_eq!(s.client.execute_subscription(&id), 1_229);
    assert_eq!(s.balances(), (8_766, 1_229, 5));
}

#[test]
fn a_leg_of_zero_is_left_out() {
    let s = Stage::new(1);
    let id = s.open(1, 1_000, None, None);
    assert_eq!(s.client.execute_subscription(&id), 0);
    assert_eq!(s.balances(), (9_999, 0, 1));
    assert_eq!(s.client.get_subscription(&id).executions_count, 1);
}

#[test]
fn a_new_fee_rate_counts_from_the_next_payment() {
    let s = Stage::new(0);
    let id = s.open(1_000, 1_000, None, None);
    assert_eq!(s.client.execute_subscription(&id), 1_000);
    s.client.set_fee(100);
    s.env.ledger().set_timestamp(1_600);
    assert_eq!(s.client.execute_subscription(&id), 990);
    assert_eq!(s.balances(), (8_000, 1_990, 10));
}

#[test]
fn a_new_subscription_is_announced() {
    let s = Stage::new(0);
    let id = s.open(70, 5_000, Some(3), Some(9_000));
    let topics = (Symbol::new(&s.env, TOPIC_CREATED), s.payer.clone(), s.recipient.clone());
    let data =
        (id, s.token.clone(), 70i128, 600u64, 5_000u64, Some(3u32), Some(9_000u64));
    let expected: soroban_sdk::Vec<(Address, soroban_sdk::Vec<Val>, Val)> =
        soroban_sdk::Vec::from_array(
            &s.env,
            [(s.client.address.clone(), topics.into_val(&s.env), data.into_val(&s.env))],
        );
    assert_eq!(s.env.events().all().filter_by_contract(&s.client.address), expected);
}

#[test]
fn a_cancellation_is_announced() {
    let s = Stage::new(0);
    let id = s.open(70, 5_000, None, None);
    s.client.cancel_subscription(&id);
    let topics = (Symbol::new(&s.env, TOPIC_CANCELLED), s.payer.clone());
    let expected: soroban_sdk::Vec<(Address, soroban_sdk::Vec<Val>, Val)> =
        soroban_sdk::Vec::from_array(
            &s.env,
            [(s.client.address.clone(), topics.into_val(&s.env), id.into_val(&s.env))],
        );
    assert_eq!(s.env.events().all().filter_by_contract(&s.client.address), expected);
}

#[test]
fn an_execution_is_announced() {
    let s = Stage::new(100);
    let id = s.open(1_000, 1_000, Some(1), None);
    s.client.execute_subscription(&id);
    let events = s.env.events().all().filter_by_contract(&s.client.address);
    let topics = (Symbol::new(&s.env, TOPIC_EXECUTED), s.payer.clone(), s.recipient.clone());
    let data = (id, 990i128, 10i128, 1_600u64, 1u32, false);
    let expected: soroban_sdk::Vec<(Address, soroban_sdk::Vec<Val>, Val)> =
        soroban_sdk::Vec::from_array(
            &s.env,
            [(s.client.address.clone(), topics.into_val(&s.env), data.into_val(&s.env))],
        );
    assert_eq!(events, expected);
}

#[test]
fn a_new_id_stands_at_the_end_of_both_indexes() {
    let s = Stage::new(0);
    let other = Address::generate(&s.env);
    let a = s.open(1, 0, None, None);
    let b = s.client.create_subscription(
        &s.payer, &other, &s.token, &1, &600, &0, &None, &None,
    );
    let c = s.client.create_subscription(
        &other, &s.recipient, &s.token, &1, &600, &0, &None, &None,
    );
    assert_eq!(s.payer_ids(0, 10), [a, b]);
    assert_eq!(s.recipient_ids(0, 10), [a, c]);
    assert_eq!(s.client.get_payer_subscription_count(&other), 1);
    assert_eq!(s.client.get_recipient_subscription_count(&other), 1);
    assert_eq!(s.client.get_recipient_subscription_count(&s.recipient), 2);
}

#[test]
fn inactive_subscriptions_stay_in_the_indexes() {
    let s = Stage::new(0);
    let capped = s.open(1, 1_000, Some(1), None);
    let cancelled = s.open(1, 1_000, None, None);
    s.client.execute_subscription(&capped);
    s.client.cancel_subscription(&cancelled);
    assert_eq!(s.payer_ids(0, 10), [capped, cancelled]);
    assert_eq!(s.recipient_ids(0, 10), [capped, cancelled]);
}

#[test]
fn a_page_is_a_stretch_of_the_index() {
    let s = Stage::new(0);
    let ids: std::vec::Vec<u64> = (0..5).map(|_| s.open(1, 0, None, None)).collect();
    assert_eq!(s.payer_ids(0, 2), ids[0..2]);
    assert_eq!(s.payer_ids(2, 2), ids[2..4]);
    assert_eq!(s.payer_ids(4, 2), ids[4..5]);
    assert_eq!(s.payer_ids(3, u32::MAX), ids[3..5]);
    assert!(s.payer_ids(1, 0).is_empty());
    assert!(s.payer_ids(5, 2).is_empty());
    assert!(s.payer_ids(u32::MAX, u32::MAX).is_empty());
}

#[test]
fn pages_after_one_another_cover_the_index() {
    let s = Stage::new(0);
    let total = MAX_SUBSCRIPTIONS_PAGE + 3;
    let ids: std::vec::Vec<u64> = (0..total).map(|_| s.open(1, 0, None, None)).collect();
    let mut seen = s.recipient_ids(0, u32::MAX);
    assert_eq!(seen.len(), MAX_SUBSCRIPTIONS_PAGE as usize);
    seen.extend(s.recipient_ids(MAX_SUBSCRIPTIONS_PAGE, u32::MAX));
    assert_eq!(seen, ids);
}

#[test]
fn adjoining_pages_are_one_page() {
    let s = Stage::new(0);
    for _ in 0..7 {
        s.open(1, 0, None, None);
    }
    for (start, first, second) in [(0, 2, 3), (1, 0, 4), (2, 4, 4), (5, 9, 1), (7, 1, 1)] {
        let mut pages = s.payer_ids(start, first);
        pages.extend(s.payer_ids(start + first, second));
        assert_eq!(pages, s.payer_ids(start, first + second));
    }
}

#[test]
fn a_mixed_history_adds_up() {
    let s = Stage::new(100);
    let a = s.open(1_000, 1_000, None, None);
    let refused = s.client.try_create_subscription(
        &s.payer, &s.recipient, &s.token, &0, &600, &0, &None, &None,
    );
    assert_eq!(refused, Err(StellarSendError::InvalidAmount));
    let b = s.open(500, 400, Some(2), None);
    let c = s.open(7, 5_000, None, Some(9_000));
    assert_eq!((a, b, c), (1, 2, 3));
    let as_opened = s.client.get_subscription(&c);

    s.client.execute_subscription(&a);
    s.client.execute_subscription(&b);
    s.client.set_fee(0);
    s.env.ledger().set_timestamp(2_000);
    s.client.execute_subscription(&a);
    s.client.keep_subscription_alive(&c);
    s.client.execute_subscription(&b);
    s.client.cancel_subscription(&a);
    let stopped = (s.client.get_subscription(&a), s.client.get_subscription(&b));
    s.client.set_fee(7);
    assert!(s.client.try_execute_subscription(&a).is_err());
    assert!(s.client.try_execute_subscription(&b).is_err());

    assert_eq!((s.client.get_subscription(&a), s.client.get_subscription(&b)), stopped);
    assert!(!stopped.0.active && !stopped.1.active);
    assert_eq!(stopped.0.next_execution_time, 1_000 + 2 * 600);
    assert_eq!(stopped.1.next_execution_time, 400 + 2 * 600);
    assert_eq!(s.client.get_subscription(&c), as_opened);
    assert_eq!(s.balances(), (10_000 - 2 * 1_000 - 2 * 500, 2_985, 15));
    assert_eq!(s.payer_ids(0, 10), [a, b, c]);
    assert_eq!(s.recipient_ids(0, 10), [a, b, c]);
}

#[test]
fn refused_attempts_leave_a_subscription_as_it_was_opened() {
    let s = Stage::new(100);
    let id = s.open(100, 2_000, Some(2), Some(3_000));
    let as_opened = s.client.get_subscription(&id);
    assert!(s.client.try_execute_subscription(&id).is_err());
    s.env.ledger().set_timestamp(3_001);
    assert!(s.client.try_execute_subscription(&id).is_err());
    assert!(s.client.try_cancel_subscription(&(id + 1)).is_err());
    s.client.keep_subscription_alive(&id);
    assert_eq!(s.client.get_subscription(&id), as_opened);
}

#[test]
fn executions_and_openings_are_counted() {
    let s = Stage::new(0);
    let other = Address::generate(&s.env);
    let a = s.open(10, 1_000, None, None);
    s.open(10, 9_000, None, None);
    s.client.create_subscription(&other, &s.recipient, &s.token, &1, &600, &0, &None, &None);
    assert!(s.client.try_create_subscription(
        &s.payer, &s.recipient, &s.token, &0, &600, &0, &None, &None,
    ).is_err());
    for (now, runs) in [(1_000, 1), (1_300, 1), (1_600, 2), (1_601, 2), (2_500, 3)] {
        s.env.ledger().set_timestamp(now);
        let _ = s.client.try_execute_subscription(&a);
        assert_eq!(s.client.get_subscription(&a).executions_count, runs);
    }
    assert_eq!(s.client.get_payer_subscription_count(&s.payer), 2);
    assert_eq!(s.client.get_payer_subscription_count(&other), 1);
    assert_eq!(s.client.get_recipient_subscription_count(&s.recipient), 3);
    assert_eq!(s.client.get_recipient_subscription_count(&s.payer), 0);
}

#[test]
fn a_page_ends_at_the_total_it_is_told() {
    let s = Stage::new(0);
    let ids: std::vec::Vec<u64> = (0..4).map(|_| s.open(1, 0, None, None)).collect();
    let read = |total: u32| -> std::vec::Vec<u64> {
        s.env.as_contract(&s.client.address, || {
            StellarSendContract::collect_subscription_page(
                &s.env,
                KEY_RECIPIENT_SUB,
                &s.recipient,
                1,
                10,
                total,
            )
            .iter()
            .collect()
        })
    };
    assert_eq!(read(3), ids[1..3]);
    assert_eq!(read(4), ids[1..4]);
    assert_eq!(read(9), ids[1..4]);
    assert!(read(0).is_empty());
}

#[test]
fn a_missing_position_is_passed_over() {
    let s = Stage::new(0);
    let ids: std::vec::Vec<u64> = (0..3).map(|_| s.open(1, 0, None, None)).collect();
    s.env.as_contract(&s.client.address, || {
        let key = (Symbol::new(&s.env, KEY_RECIPIENT_SUB), s.recipient.clone(), 1u32);
        s.env.storage().persistent().remove(&key)
    });
    assert_eq!(s.recipient_ids(0, 10), [ids[0], ids[2]]);
    assert_eq!(s.payer_ids(0, 10), ids[..]);
}

#[test]
fn every_listed_id_is_a_subscription_of_its_owner() {
    let s = Stage::new(0);
    s.open(1, 0, None, None);
    s.open(2, 0, Some(1), None);
    for id in s.payer_ids(0, 10) {
        assert_eq!(s.client.get_subscription(&id).payer, s.payer);
    }
    for id in s.recipient_ids(0, 10) {
        assert_eq!(s.client.get_subscription(&id).recipient, s.recipient);
    }
}

#[test]
fn an_operation_touches_its_own_subscription_alone() {
    let s = Stage::new(100);
    let a = s.open(100, 1_000, Some(5), None);
    let b = s.open(200, 1_000, None, Some(90_000));
    let untouched = s.client.get_subscription(&b);
    s.client.execute_subscription(&a);
    s.client.keep_subscription_alive(&a);
    s.client.cancel_subscription(&a);
    s.client.set_fee(7);
    assert_eq!(s.client.get_subscription(&b), untouched);
    assert_eq!(s.payer_ids(0, 10), [a, b]);
}

#[test]
fn a_full_index_takes_no_more() {
    let s = Stage::new(0);
    assert_eq!(
        s.client.create_subscription_unless_full(&s.payer, &s.recipient, &s.token, &10),
        Some(Ok(1))
    );
    s.client.set_count(KEY_PAYER_SUB_COUNT, &s.payer, u32::MAX);
    assert_eq!(
        s.client.create_subscription_unless_full(&s.payer, &s.recipient, &s.token, &10),
        None
    );
    assert_eq!(
        s.client.create_subscription_unless_full(&s.payer, &s.recipient, &s.token, &0),
        Some(Err(StellarSendError::InvalidAmount))
    );
    s.client.set_count(KEY_PAYER_SUB_COUNT, &s.payer, u32::MAX - 1);
    s.client.set_count(KEY_RECIPIENT_SUB_COUNT, &s.recipient, u32::MAX);
    assert_eq!(
        s.client.create_subscription_unless_full(&s.payer, &s.recipient, &s.token, &10),
        None
    );
    s.client.set_count(KEY_RECIPIENT_SUB_COUNT, &s.recipient, u32::MAX - 1);
    assert_eq!(
        s.client.create_subscription_unless_full(&s.payer, &s.recipient, &s.token, &10),
        Some(Ok(2))
    );
    assert_eq!(s.client.get_payer_subscription_count(&s.payer), u32::MAX);
    assert_eq!(s.client.get_recipient_subscription_count(&s.recipient), u32::MAX);
}

#[test]
fn the_entry_lives_for_the_interval_and_a_day() {
    let s = Stage::new(0);
    s.env.ledger().set_min_persistent_entry_ttl(10);
    s.env.ledger().set_max_entry_ttl(6_000_000);
    let id = s.open(10, 1_000, None, None);
    assert_eq!(s.client.ttl(&id), 17_280 + 120);
    let far = s.open(10, 1_000 + 1_000_001, None, None);
    assert_eq!(s.client.ttl(&far), 17_280 + 200_001);
    let expiring = s.open(10, 1_000, None, Some(1_000 + 2_000_000));
    assert_eq!(s.client.ttl(&expiring), 17_280 + 400_000);
}

#[test]
fn the_network_bounds_the_lifetime() {
    let s = Stage::new(0);
    s.env.ledger().set_min_persistent_entry_ttl(10);
    s.env.ledger().set_max_entry_ttl(1_000);
    let id = s.open(10, u64::MAX, None, None);
    assert_eq!(s.client.ttl(&id), 1_000);
}

#[test]
fn a_network_that_allows_no_lifetime_is_asked_for_none() {
    let s = Stage::new(0);
    s.env.ledger().set_min_persistent_entry_ttl(10);
    s.env.ledger().set_max_entry_ttl(1_000);
    let id = s.open(10, 1_000, None, None);
    s.env.ledger().set_max_entry_ttl(0);
    s.client.keep_subscription_alive(&id);
    assert_eq!(s.client.ttl(&id), 1_000);
}

#[test]
fn a_longer_life_is_not_shortened_and_others_are_left_alone() {
    let s = Stage::new(0);
    s.env.ledger().set_min_persistent_entry_ttl(10);
    s.env.ledger().set_max_entry_ttl(6_000_000);
    let id = s.open(10, 1_000 + 1_000_000, None, None);
    let near = s.open(10, 1_000, None, None);
    assert_eq!(s.client.ttl(&id), 17_280 + 200_000);
    s.env.ledger().set_timestamp(1_000 + 500_000);
    s.client.keep_subscription_alive(&id);
    s.client.cancel_subscription(&id);
    assert_eq!(s.client.ttl(&id), 17_280 + 200_000);
    assert_eq!(s.client.ttl(&near), 17_280 + 120);
}

#[test]
fn a_payment_and_upkeep_renew_the_lifetime() {
    let s = Stage::new(0);
    s.env.ledger().set_min_persistent_entry_ttl(10);
    s.env.ledger().set_max_entry_ttl(6_000_000);
    let id = s.open(10, 1_000, None, None);
    let before = s.client.get_subscription(&id);
    s.env.ledger().set_sequence_number(500);
    assert_eq!(s.client.ttl(&id), 17_280 + 120 - 500);
    s.client.keep_subscription_alive(&id);
    assert_eq!(s.client.ttl(&id), 17_280 + 120);
    assert_eq!(s.client.get_subscription(&id), before);
    s.env.ledger().set_sequence_number(600);
    s.client.execute_subscription(&id);
    assert_eq!(s.client.ttl(&id), 17_280 + 120);
}
