//! What the contract keeps on the ledger and what it asks of its host, as
//! mathematical values.
//!
//! An [`Env`] is a handle to the host that runs the contract. Three things about it
//! matter here. [`entries`] is the contract's own storage: a map from keys to values.
//! [`lives`] is how long each of these entries will last. [`trace`] is the record of everything else that passed between contract and host
//! through the handle, in order: what the contract asked the host to do, and what the
//! host told it about the time, the network and itself. Verified code holds one handle
//! and changes the host through it alone; a copy of the handle made elsewhere is
//! a different value, of which nothing is said.

use soroban_sdk::{Address, Env};
use vstd::prelude::*;

use crate::config::{ContractConfig, KEY_CONFIG};
use crate::schedule::Subscription;

verus! {

/// `soroban_sdk::Env`, the handle to the host.
#[verifier::external_type_specification]
#[verifier::external_body]
pub struct ExEnv(soroban_sdk::Env);

/// `soroban_sdk::Address`. A value stands for the account or contract that it names:
/// two handles to the same address are the same value.
#[verifier::external_type_specification]
#[verifier::external_body]
pub struct ExAddress(soroban_sdk::Address);

/// `soroban_sdk::Vec`, a list that lives in the host.
#[verifier::external_type_specification]
#[verifier::external_body]
#[verifier::reject_recursive_types(T)]
pub struct ExVec<T>(soroban_sdk::Vec<T>);

/// Symbol of the subscriptions, `(KEY_SUB, id)`.
pub const KEY_SUB: &'static str = "SUB";

/// Symbol of the instance entry with the last subscription id given out.
pub const KEY_SUB_SEQ: &'static str = "SUB_SEQ";

/// Symbol of a payer's subscription ids, `(KEY_PAYER_SUB, payer, position)`.
pub const KEY_PAYER_SUB: &'static str = "PAY_SUB";

/// Symbol of the number of a payer's subscriptions, `(KEY_PAYER_SUB_COUNT, payer)`.
pub const KEY_PAYER_SUB_COUNT: &'static str = "PAY_SUBN";

/// Symbol of a recipient's subscription ids, `(KEY_RECIPIENT_SUB, recipient, position)`.
pub const KEY_RECIPIENT_SUB: &'static str = "REC_SUB";

/// Symbol of the number of a recipient's subscriptions,
/// `(KEY_RECIPIENT_SUB_COUNT, recipient)`.
pub const KEY_RECIPIENT_SUB_COUNT: &'static str = "REC_SUBN";

/// A storage key.
pub enum Key {
    /// An instance entry under a symbol.
    Instance(Seq<char>),
    /// A persistent entry under `(symbol, number)`.
    Numbered(Seq<char>, u64),
    /// A persistent entry under `(symbol, address)`.
    Owned(Seq<char>, Address),
    /// A persistent entry under `(symbol, address, position)`.
    Listed(Seq<char>, Address, u32),
}

/// A stored value.
pub enum Value {
    Number(u64),
    Count(u32),
    Config(ContractConfig),
    Subscription(Subscription),
}

/// An event that the contract publishes.
pub enum Event {
    Created {
        id: u64,
        payer: Address,
        recipient: Address,
        token: Address,
        amount: i128,
        interval_seconds: u64,
        start_time: u64,
        max_executions: Option<u32>,
        expiry_time: Option<u64>,
    },
    Cancelled { id: u64, payer: Address },
    Executed {
        id: u64,
        payer: Address,
        recipient: Address,
        net_amount: i128,
        fee_amount: i128,
        next_execution_time: u64,
        executions_count: u32,
        active: bool,
    },
}

/// One exchange between contract and host.
pub enum Step {
    /// The host confirmed that the address authorised the invocation.
    Authorized(Address),
    /// The host told the ledger's time.
    Clock(u64),
    /// The host told the longest lifetime that an entry can have.
    MaxTtl(u32),
    /// The host told the contract's own address.
    Own(Address),
    /// The host was asked to extend the life of an entry.
    ExtendTtl { key: Key, threshold: u32, extend_to: u32 },
    /// A token was asked to move funds.
    TransferFrom { token: Address, spender: Address, from: Address, to: Address, amount: i128 },
    /// An event was published under a topic.
    Publish { topic: Seq<char>, event: Event },
}

/// The entries that the running contract has in the storage behind the handle and that
/// hold a [`Value`]. Settings and subscriptions are stored as maps from field names to
/// fields.
pub uninterp spec fn entries(env: Env) -> Map<Key, Value>;

/// How many ledgers each of the contract's persistent entries lives on after the current
/// one. An archived entry that the host restores when it is touched has the life that it
/// is restored with. Instance entries live and die with the contract and are not here.
pub uninterp spec fn lives(env: Env) -> Map<Key, u32>;

/// The exchanges that have taken place through the handle, in order.
pub uninterp spec fn trace(env: Env) -> Seq<Step>;

/// The numbers in a host list, in order.
pub uninterp spec fn numbers(list: soroban_sdk::Vec<u64>) -> Seq<u64>;

/// Whether a character may stand in a symbol.
pub open spec fn symbol_char(c: char) -> bool {
    ||| 'a' <= c <= 'z'
    ||| 'A' <= c <= 'Z'
    ||| '0' <= c <= '9'
    ||| c == '_'
}

/// Whether a text can be a symbol.
pub open spec fn symbol_text(text: Seq<char>) -> bool {
    &&& text.len() <= 32
    &&& forall|i: int| 0 <= i < text.len() ==> symbol_char(#[trigger] text[i])
}

/// Storage and trace of a host, side by side. The entries' lives are left out: they run
/// down by themselves from one ledger to the next, so they are not what an operation left
/// them when the next one begins.
#[verifier::ext_equal]
pub struct Ledger {
    pub entries: Map<Key, Value>,
    pub trace: Seq<Step>,
}

/// Storage and trace behind a handle.
pub open spec fn ledger(env: Env) -> Ledger {
    Ledger { entries: entries(env), trace: trace(env) }
}

impl Ledger {
    /// The subscription stored under a symbol and a number.
    pub open spec fn numbered(self, symbol: Seq<char>, number: u64) -> Option<Subscription> {
        match self.entries.get(Key::Numbered(symbol, number)) {
            Some(Value::Subscription(sub)) => Some(sub),
            _ => None,
        }
    }

    /// The subscription with an id.
    pub open spec fn subscription(self, id: u64) -> Option<Subscription> {
        self.numbered(KEY_SUB@, id)
    }

    /// The number stored in the instance under a symbol.
    pub open spec fn number(self, symbol: Seq<char>) -> Option<u64> {
        match self.entries.get(Key::Instance(symbol)) {
            Some(Value::Number(n)) => Some(n),
            _ => None,
        }
    }

    /// The settings stored in the instance under a symbol.
    pub open spec fn settings(self, symbol: Seq<char>) -> Option<ContractConfig> {
        match self.entries.get(Key::Instance(symbol)) {
            Some(Value::Config(c)) => Some(c),
            _ => None,
        }
    }

    /// The configuration.
    pub open spec fn config(self) -> Option<ContractConfig> {
        self.settings(KEY_CONFIG@)
    }

    /// The count stored for an address under a symbol.
    pub open spec fn owned(self, symbol: Seq<char>, owner: Address) -> Option<u32> {
        match self.entries.get(Key::Owned(symbol, owner)) {
            Some(Value::Count(n)) => Some(n),
            _ => None,
        }
    }

    /// The count of an address under a symbol: zero where none is stored.
    pub open spec fn count(self, symbol: Seq<char>, owner: Address) -> u32 {
        match self.owned(symbol, owner) {
            Some(n) => n,
            None => 0,
        }
    }

    /// The number stored for an address and a position under a symbol.
    pub open spec fn listed(self, symbol: Seq<char>, owner: Address, position: u32) -> Option<u64> {
        match self.entries.get(Key::Listed(symbol, owner, position)) {
            Some(Value::Number(n)) => Some(n),
            _ => None,
        }
    }

    /// The ledger with one entry written.
    pub open spec fn put(self, key: Key, value: Value) -> Ledger {
        Ledger { entries: self.entries.insert(key, value), ..self }
    }

    /// The ledger with one exchange recorded.
    pub open spec fn noted(self, step: Step) -> Ledger {
        Ledger { trace: self.trace.push(step), ..self }
    }
}

} // verus!
