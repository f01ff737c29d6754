//! The calls into the Soroban host, one function each.
//!
//! Nothing in this file is proved: each function states what `soroban_sdk` documents
//! of the call that its body makes. Where the host gives up on an invocation (an
//! authorisation is missing, a token turns a transfer down, the invocation's budget
//! is spent, no contract is running), the call does not return and every
//! write of the invocation is undone; the statements are about calls that return.
//!
//! An entry is read as the host's plain `Val` and then converted, which can fail: what
//! stands under a key and is not of the type asked for counts as absent.

use soroban_sdk::{Address, Env, IntoVal, Symbol, TryIntoVal, Val};
use vstd::prelude::*;

use crate::config::ContractConfig;
use crate::ledger::{
    entries, ledger, lives, numbers, symbol_text, trace, Event, Key, Step, Value,
};
use crate::schedule::Subscription;

verus! {

/// `<soroban_sdk::Address as Clone>::clone`: the copy names the same account or
/// contract.
pub assume_specification[ <Address as Clone>::clone ](address: &Address) -> (r: Address)
    ensures
        r == *address,
;

/// `<soroban_sdk::Address as PartialEq>::eq`: true exactly where both name the same
/// account or contract.
#[verifier::external_body]
pub(crate) fn same_address(a: &Address, b: &Address) -> (r: bool)
    ensures
        r == (*a == *b),
{
    a == b
}

/// `soroban_sdk::Address::require_auth`: returns only when the address has authorised
/// the invocation. Storage is not touched.
#[verifier::external_body]
pub(crate) fn require_auth(env: &mut Env, address: &Address)
    ensures
        entries(*final(env)) == entries(*old(env)),
        lives(*final(env)) == lives(*old(env)),
        trace(*final(env)) == trace(*old(env)).push(Step::Authorized(*address)),
{
    address.require_auth()
}

/// `soroban_sdk::ledger::Ledger::timestamp`: the close time of the ledger that the
/// invocation runs in. Which time that is, is not said; the trace keeps it.
#[verifier::external_body]
pub(crate) fn timestamp(env: &mut Env) -> (now: u64)
    ensures
        entries(*final(env)) == entries(*old(env)),
        lives(*final(env)) == lives(*old(env)),
        trace(*final(env)) == trace(*old(env)).push(Step::Clock(now)),
{
    env.ledger().timestamp()
}

/// `soroban_sdk::storage::Storage::max_ttl`: the longest lifetime, in ledgers, that an
/// entry can be given now. The network decides it; the trace keeps it.
#[verifier::external_body]
pub(crate) fn max_ttl(env: &mut Env) -> (max: u32)
    ensures
        entries(*final(env)) == entries(*old(env)),
        lives(*final(env)) == lives(*old(env)),
        trace(*final(env)) == trace(*old(env)).push(Step::MaxTtl(max)),
{
    env.storage().max_ttl()
}

/// `soroban_sdk::Env::current_contract_address`: the address of the contract that is
/// running. The trace keeps it.
#[verifier::external_body]
pub(crate) fn current_contract_address(env: &mut Env) -> (own: Address)
    ensures
        entries(*final(env)) == entries(*old(env)),
        lives(*final(env)) == lives(*old(env)),
        trace(*final(env)) == trace(*old(env)).push(Step::Own(own)),
{
    env.current_contract_address()
}

/// `soroban_sdk::storage::Instance::get` for a number: the number under the symbol, or
/// `None`.
#[verifier::external_body]
pub(crate) fn instance_get_number(env: &Env, symbol: &str) -> (r: Option<u64>)
    requires
        symbol_text(symbol@),
    ensures
        r == ledger(*env).number(symbol@),
{
    env.storage().instance().get::<_, Val>(&Symbol::new(env, symbol))?.try_into_val(env).ok()
}

/// `soroban_sdk::storage::Instance::set` for a number: writes the one entry.
#[verifier::external_body]
pub(crate) fn instance_set_number(env: &mut Env, symbol: &str, number: u64)
    requires
        symbol_text(symbol@),
    ensures
        entries(*final(env)) == entries(*old(env)).insert(
            Key::Instance(symbol@),
            Value::Number(number),
        ),
        lives(*final(env)) == lives(*old(env)),
        trace(*final(env)) == trace(*old(env)),
{
    env.storage().instance().set(&Symbol::new(env, symbol), &number)
}

/// `soroban_sdk::storage::Instance::get` for the settings: the settings under the
/// symbol, or `None`. On the ledger they are a map from field names to values.
#[verifier::external_body]
pub(crate) fn instance_get_settings(env: &Env, symbol: &str) -> (r: Option<ContractConfig>)
    requires
        symbol_text(symbol@),
    ensures
        r == ledger(*env).settings(symbol@),
{
    let stored: Val = env.storage().instance().get(&Symbol::new(env, symbol))?;
    let map: soroban_sdk::Map<Symbol, Val> = stored.try_into_val(env).ok()?;
    let f = |name: &str| map.get(Symbol::new(env, name));
    let fields = [f("admin")?, f("fee_bps")?, f("fee_collector")?, f("active")?];
    let (admin, fee_bps, fee_collector, active) = fields.try_into_val(env).ok()?;
    Some(ContractConfig { admin, fee_bps, fee_collector, active })
}

/// `soroban_sdk::storage::Instance::set` for the settings: writes the one entry.
#[verifier::external_body]
pub(crate) fn instance_set_settings(env: &mut Env, symbol: &str, settings: &ContractConfig)
    requires
        symbol_text(symbol@),
    ensures
        entries(*final(env)) == entries(*old(env)).insert(
            Key::Instance(symbol@),
            Value::Config(*settings),
        ),
        lives(*final(env)) == lives(*old(env)),
        trace(*final(env)) == trace(*old(env)),
{
    let name = |text: &str| Symbol::new(env, text);
    let map: soroban_sdk::Map<Symbol, Val> = soroban_sdk::Map::from_array(env, [
        (name("admin"), settings.admin.into_val(env)),
        (name("fee_bps"), settings.fee_bps.into_val(env)),
        (name("fee_collector"), settings.fee_collector.into_val(env)),
        (name("active"), settings.active.into_val(env)),
    ]);
    env.storage().instance().set(&name(symbol), &map)
}

/// `soroban_sdk::storage::Persistent::get` for a subscription: the subscription under
/// `(symbol, number)`, or `None`. On the ledger it is a map from field names to values.
#[verifier::external_body]
pub(crate) fn persistent_get_subscription(env: &Env, symbol: &str, number: u64) -> (r: Option<
    Subscription,
>)
    requires
        symbol_text(symbol@),
    ensures
        r == ledger(*env).numbered(symbol@, number),
{
    let stored: Val = env.storage().persistent().get(&(Symbol::new(env, symbol), number))?;
    let map: soroban_sdk::Map<Symbol, Val> = stored.try_into_val(env).ok()?;
    let f = |name: &str| map.get(Symbol::new(env, name));
    let (payer, recipient, token, amount, interval_seconds, next_execution_time, active,
        max_executions, expiry_time, executions_count) = [
        f("payer")?, f("recipient")?, f("token")?, f("amount")?, f("interval_seconds")?,
        f("next_execution_time")?, f("active")?, f("max_executions")?, f("expiry_time")?,
        f("executions_count")?,
    ].try_into_val(env).ok()?;
    Some(Subscription {
        payer, recipient, token, amount, interval_seconds, next_execution_time, active,
        max_executions, expiry_time, executions_count,
    })
}

/// `soroban_sdk::storage::Persistent::set` for a subscription: writes the one entry. An
/// entry that was there keeps its life; how long a new one lives, the network decides.
#[verifier::external_body]
pub(crate) fn persistent_set_subscription(
    env: &mut Env,
    symbol: &str,
    number: u64,
    sub: &Subscription,
)
    requires
        symbol_text(symbol@),
    ensures
        entries(*final(env)) == entries(*old(env)).insert(
            Key::Numbered(symbol@, number),
            Value::Subscription(*sub),
        ),
        lives(*final(env)) == lives(*old(env)).insert(
            Key::Numbered(symbol@, number),
            lives(*final(env))[Key::Numbered(symbol@, number)],
        ),
        entries(*old(env)).contains_key(Key::Numbered(symbol@, number)) ==> lives(*final(env))
            == lives(*old(env)),
        trace(*final(env)) == trace(*old(env)),
{
    let s = |text| Symbol::new(env, text);
    env.storage().persistent().set(&(s(symbol), number), &soroban_sdk::Map::from_array(env, [
        (s("payer"), sub.payer.to_val()),
        (s("recipient"), sub.recipient.to_val()),
        (s("token"), sub.token.to_val()),
        (s("amount"), sub.amount.into_val(env)),
        (s("interval_seconds"), sub.interval_seconds.into_val(env)),
        (s("next_execution_time"), sub.next_execution_time.into_val(env)),
        (s("active"), sub.active.into_val(env)),
        (s("max_executions"), sub.max_executions.into_val(env)),
        (s("expiry_time"), sub.expiry_time.into_val(env)),
        (s("executions_count"), sub.executions_count.into_val(env)),
    ]))
}

/// `soroban_sdk::storage::Persistent::get` for a count: the count under
/// `(symbol, owner)`, or `None`.
#[verifier::external_body]
pub(crate) fn persistent_get_count(env: &Env, symbol: &str, owner: &Address) -> (r: Option<u32>)
    requires
        symbol_text(symbol@),
    ensures
        r == ledger(*env).owned(symbol@, *owner),
{
    let stored: Val = env.storage().persistent().get(&(Symbol::new(env, symbol), owner.clone()))?;
    stored.try_into_val(env).ok()
}

/// `soroban_sdk::storage::Persistent::set` for a count: writes the one entry. An
/// entry that was there keeps its life; how long a new one lives, the network decides.
#[verifier::external_body]
pub(crate) fn persistent_set_count(env: &mut Env, symbol: &str, owner: &Address, count: u32)
    requires
        symbol_text(symbol@),
    ensures
        entries(*final(env)) == entries(*old(env)).insert(
            Key::Owned(symbol@, *owner),
            Value::Count(count),
        ),
        lives(*final(env)) == lives(*old(env)).insert(
            Key::Owned(symbol@, *owner),
            lives(*final(env))[Key::Owned(symbol@, *owner)],
        ),
        entries(*old(env)).contains_key(Key::Owned(symbol@, *owner)) ==> lives(*final(env))
            == lives(*old(env)),
        trace(*final(env)) == trace(*old(env)),
{
    env.storage().persistent().set(&(Symbol::new(env, symbol), owner.clone()), &count)
}

/// `soroban_sdk::storage::Persistent::get` for a number in a list: the number under
/// `(symbol, owner, position)`, or `None`.
#[verifier::external_body]
pub(crate) fn persistent_get_listed(env: &Env, symbol: &str, owner: &Address, position: u32) -> (r:
    Option<u64>)
    requires
        symbol_text(symbol@),
    ensures
        r == ledger(*env).listed(symbol@, *owner, position),
{
    let key = (Symbol::new(env, symbol), owner.clone(), position);
    env.storage().persistent().get::<_, Val>(&key)?.try_into_val(env).ok()
}

/// `soroban_sdk::storage::Persistent::set` for a number in a list: writes the one entry. An
/// entry that was there keeps its life; how long a new one lives, the network decides.
#[verifier::external_body]
pub(crate) fn persistent_set_listed(
    env: &mut Env,
    symbol: &str,
    owner: &Address,
    position: u32,
    number: u64,
)
    requires
        symbol_text(symbol@),
    ensures
        entries(*final(env)) == entries(*old(env)).insert(
            Key::Listed(symbol@, *owner, position),
            Value::Number(number),
        ),
        lives(*final(env)) == lives(*old(env)).insert(
            Key::Listed(symbol@, *owner, position),
            lives(*final(env))[Key::Listed(symbol@, *owner, position)],
        ),
        entries(*old(env)).contains_key(Key::Listed(symbol@, *owner, position)) ==> lives(*final(env))
            == lives(*old(env)),
        trace(*final(env)) == trace(*old(env)),
{
    env.storage().persistent().set(&(Symbol::new(env, symbol), owner.clone(), position), &number)
}

/// `soroban_sdk::storage::Persistent::extend_ttl` for `(symbol, number)`: where the entry
/// has `threshold` ledgers or fewer left to live, its life becomes `extend_to` ledgers;
/// otherwise, and for every other entry, it stays as it is. So do the stored values. The
/// host turns down an entry that is not there, a threshold above the extension, and an
/// extension past the last ledger number; the longest lifetime, which the host has to have
/// told just before, does not reach past that one.
#[verifier::external_body]
pub(crate) fn persistent_extend_ttl(
    env: &mut Env,
    symbol: &str,
    number: u64,
    threshold: u32,
    extend_to: u32,
)
    requires
        symbol_text(symbol@),
        threshold <= extend_to,
        entries(*old(env)).contains_key(Key::Numbered(symbol@, number)),
        trace(*old(env)).len() > 0,
        trace(*old(env)).last() is MaxTtl,
        extend_to <= trace(*old(env)).last()->MaxTtl_0,
    ensures
        entries(*final(env)) == entries(*old(env)),
        lives(*final(env)) == lives(*old(env)).insert(
            Key::Numbered(symbol@, number),
            if lives(*old(env))[Key::Numbered(symbol@, number)] <= threshold {
                extend_to
            } else {
                lives(*old(env))[Key::Numbered(symbol@, number)]
            },
        ),
        trace(*final(env)) == trace(*old(env)).push(
            Step::ExtendTtl { key: Key::Numbered(symbol@, number), threshold, extend_to },
        ),
{
    env.storage().persistent().extend_ttl(&(Symbol::new(env, symbol), number), threshold, extend_to)
}

/// `soroban_sdk::token::Client::transfer_from`: asks the token contract to move `amount`
/// out of `from`'s balance to `to`, against the allowance that `from` gave `spender`;
/// returns only when the token has done so. What the token does is its own affair. It
/// cannot reach the storage of the contract that called it: a contract's entries are its
/// own, values and lives alike, and the host refuses a call back into a contract that is
/// running. Tokens turn down a negative amount.
#[verifier::external_body]
pub(crate) fn transfer_from(
    env: &mut Env,
    token: &Address,
    spender: &Address,
    from: &Address,
    to: &Address,
    amount: i128,
)
    requires
        amount > 0,
    ensures
        entries(*final(env)) == entries(*old(env)),
        lives(*final(env)) == lives(*old(env)),
        trace(*final(env)) == trace(*old(env)).push(
            Step::TransferFrom {
                token: *token,
                spender: *spender,
                from: *from,
                to: *to,
                amount,
            },
        ),
{
    soroban_sdk::token::Client::new(env, token).transfer_from(spender, from, to, &amount)
}

/// `soroban_sdk::events::Events::publish` for a new subscription: publishes one event,
/// with the topic, payer and recipient as its topics and the rest as its data.
#[verifier::external_body]
#[allow(deprecated)]
pub(crate) fn publish_created(env: &mut Env, topic: &str, id: u64, sub: &Subscription)
    requires
        symbol_text(topic@),
    ensures
        entries(*final(env)) == entries(*old(env)),
        lives(*final(env)) == lives(*old(env)),
        trace(*final(env)) == trace(*old(env)).push(
            Step::Publish {
                topic: topic@,
                event: Event::Created {
                    id,
                    payer: sub.payer,
                    recipient: sub.recipient,
                    token: sub.token,
                    amount: sub.amount,
                    interval_seconds: sub.interval_seconds,
                    start_time: sub.next_execution_time,
                    max_executions: sub.max_executions,
                    expiry_time: sub.expiry_time,
                },
            },
        ),
{
    let topics = (Symbol::new(env, topic), sub.payer.clone(), sub.recipient.clone());
    let data = (
        id,
        sub.token.clone(),
        sub.amount,
        sub.interval_seconds,
        sub.next_execution_time,
        sub.max_executions,
        sub.expiry_time,
    );
    env.events().publish(topics, data)
}

/// `soroban_sdk::events::Events::publish` for a cancelled subscription: publishes one
/// event, with the topic and the payer as its topics and the id as its data.
#[verifier::external_body]
#[allow(deprecated)]
pub(crate) fn publish_cancelled(env: &mut Env, topic: &str, id: u64, payer: &Address)
    requires
        symbol_text(topic@),
    ensures
        entries(*final(env)) == entries(*old(env)),
        lives(*final(env)) == lives(*old(env)),
        trace(*final(env)) == trace(*old(env)).push(
            Step::Publish { topic: topic@, event: Event::Cancelled { id, payer: *payer } },
        ),
{
    env.events().publish((Symbol::new(env, topic), payer.clone()), id)
}

/// `soroban_sdk::events::Events::publish` for an execution: publishes one event, with the
/// topic, payer and recipient as its topics and the rest as its data.
#[verifier::external_body]
#[allow(deprecated)]
pub(crate) fn publish_executed(
    env: &mut Env,
    topic: &str,
    id: u64,
    sub: &Subscription,
    net_amount: i128,
    fee_amount: i128,
)
    requires
        symbol_text(topic@),
    ensures
        entries(*final(env)) == entries(*old(env)),
        lives(*final(env)) == lives(*old(env)),
        trace(*final(env)) == trace(*old(env)).push(
            Step::Publish {
                topic: topic@,
                event: Event::Executed {
                    id,
                    payer: sub.payer,
                    recipient: sub.recipient,
                    net_amount,
                    fee_amount,
                    next_execution_time: sub.next_execution_time,
                    executions_count: sub.executions_count,
                    active: sub.active,
                },
            },
        ),
{
    let topics = (Symbol::new(env, topic), sub.payer.clone(), sub.recipient.clone());
    let data = (
        id,
        net_amount,
        fee_amount,
        sub.next_execution_time,
        sub.executions_count,
        sub.active,
    );
    env.events().publish(topics, data)
}

/// `soroban_sdk::Vec::new`: an empty list.
#[verifier::external_body]
pub(crate) fn new_list(env: &Env) -> (list: soroban_sdk::Vec<u64>)
    ensures
        numbers(list) == Seq::<u64>::empty(),
{
    soroban_sdk::Vec::new(env)
}

/// `soroban_sdk::Vec::push_back`: adds the number at the end. The length of a host list
/// is a `u32`.
#[verifier::external_body]
pub(crate) fn push_back(list: &mut soroban_sdk::Vec<u64>, number: u64)
    requires
        numbers(*old(list)).len() < u32::MAX,
    ensures
        numbers(*final(list)) == numbers(*old(list)).push(number),
{
    list.push_back(number)
}

} // verus!
