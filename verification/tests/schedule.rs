//! The rules of a subscription's life on exact values.

use soroban_sdk::testutils::{Address as _, EnvTestConfig};
use soroban_sdk::{Address, Env};
use stellar_send::config::ContractConfig;
use stellar_send::schedule::{check_terms, lifetime_target, plan_execution, Subscription};
use stellar_send::StellarSendError;

fn subscription(amount: i128) -> (Subscription, Option<ContractConfig>) {
    let env = Env::new_with_config(EnvTestConfig { capture_snapshot_at_drop: false });
    let sub = Subscription {
        payer: Address::generate(&env),
        recipient: Address::generate(&env),
        token: Address::generate(&env),
        amount,
        interval_seconds: 600,
        next_execution_time: 1_000,
        active: true,
        max_executions: None,
        expiry_time: None,
        executions_count: 0,
    };
    let config = ContractConfig {
        admin: Address::generate(&env),
        fee_bps: 100,
        fee_collector: Address::generate(&env),
        active: true,
    };
    (sub, Some(config))
}

fn refusal(sub: Subscription, now: u64, config: &Option<ContractConfig>) -> StellarSendError {
    match plan_execution(sub, now, config) {
        Ok(_) => panic!("the execution was expected to be refused"),
        Err(e) => e,
    }
}

#[test]
fn terms_are_checked_in_order() {
    assert_eq!(check_terms(1, 1, false, 0, None, None), Ok(()));
    assert_eq!(check_terms(1, 1, false, 5, Some(1), Some(6)), Ok(()));
    assert_eq!(
        check_terms(0, 0, true, 5, Some(0), Some(5)),
        Err(StellarSendError::InvalidAmount)
    );
    assert_eq!(
        check_terms(1, 0, true, 5, Some(0), Some(5)),
        Err(StellarSendError::InvalidInterval)
    );
    assert_eq!(
        check_terms(1, 1, true, 5, Some(0), Some(5)),
        Err(StellarSendError::SelfPaymentNotAllowed)
    );
    assert_eq!(
        check_terms(1, 1, false, 5, Some(0), Some(5)),
        Err(StellarSendError::InvalidMaxExecutions)
    );
    assert_eq!(
        check_terms(1, 1, false, 5, Some(1), Some(5)),
        Err(StellarSendError::InvalidExpiry)
    );
}

#[test]
fn a_planned_execution_advances_the_subscription() {
    let (sub, config) = subscription(1_050);
    let x = plan_execution(sub.clone(), 1_700, &config).unwrap_or_else(|e| panic!("{:?}", e));
    assert_eq!(x.fee_amount, 11);
    assert_eq!(x.net_amount, 1_039);
    assert_eq!(
        x.after,
        Subscription { next_execution_time: 1_600, executions_count: 1, ..sub }
    );
}

#[test]
fn the_last_execution_deactivates() {
    let (sub, config) = subscription(10);
    let almost = Subscription { max_executions: Some(3), executions_count: 1, ..sub };
    let x = plan_execution(almost, 1_000, &config).unwrap_or_else(|e| panic!("{:?}", e));
    assert!(x.after.active);
    let y = plan_execution(x.after, 1_600, &config).unwrap_or_else(|e| panic!("{:?}", e));
    assert_eq!(y.after.executions_count, 3);
    assert!(!y.after.active);
}

#[test]
fn refusals_come_in_order() {
    let (sub, config) = subscription(10);
    let late = Subscription { expiry_time: Some(1_200), ..sub.clone() };
    assert_eq!(refusal(sub.clone(), 999, &config), StellarSendError::SubscriptionNotDue);
    assert_eq!(refusal(late.clone(), 1_201, &None), StellarSendError::SubscriptionExpired);
    assert_eq!(refusal(late.clone(), 1_200, &None), StellarSendError::NotInitialized);
    assert_eq!(refusal(late.clone(), 999, &config), StellarSendError::SubscriptionNotDue);
    let expired_before_due = Subscription { next_execution_time: 1_600, ..late.clone() };
    assert_eq!(
        refusal(expired_before_due.clone(), 1_200, &config),
        StellarSendError::SubscriptionNotDue
    );
    assert_eq!(
        refusal(expired_before_due, 1_201, &config),
        StellarSendError::SubscriptionExpired
    );
    assert_eq!(
        refusal(Subscription { active: false, ..late }, 0, &None),
        StellarSendError::SubscriptionInactive
    );
}

#[test]
fn a_full_count_overflows() {
    let (sub, config) = subscription(10);
    let full = Subscription { executions_count: u32::MAX, ..sub.clone() };
    assert_eq!(refusal(full, 1_000, &config), StellarSendError::ArithmeticOverflow);
    let last = Subscription { executions_count: u32::MAX - 1, ..sub };
    assert!(plan_execution(last, 1_000, &config).is_ok());
}

#[test]
fn a_lifetime_is_rounded_up_and_cushioned() {
    let (sub, _config) = subscription(10);
    assert_eq!(lifetime_target(&sub, 1_000, u32::MAX), 17_280 + 120);
    assert_eq!(lifetime_target(&sub, u64::MAX, u32::MAX), 17_280 + 120);
    let odd = Subscription { interval_seconds: 601, ..sub.clone() };
    assert_eq!(lifetime_target(&odd, 1_000, u32::MAX), 17_280 + 121);
    let waiting = Subscription { next_execution_time: 5_000, ..sub.clone() };
    assert_eq!(lifetime_target(&waiting, 1_000, u32::MAX), 17_280 + 800);
    let expiring = Subscription { expiry_time: Some(11_000), ..waiting };
    assert_eq!(lifetime_target(&expiring, 1_000, u32::MAX), 17_280 + 2_000);
}

#[test]
fn a_lifetime_stays_within_the_network_limits() {
    let (sub, _config) = subscription(10);
    let endless = Subscription { interval_seconds: u64::MAX, ..sub.clone() };
    assert_eq!(lifetime_target(&endless, 0, u32::MAX), u32::MAX);
    assert_eq!(lifetime_target(&sub, 1_000, 17_399), 17_399);
    assert_eq!(lifetime_target(&sub, 1_000, 1), 1);
    assert_eq!(lifetime_target(&sub, 1_000, 0), 0);
}
