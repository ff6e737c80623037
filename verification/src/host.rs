//! The contract host as the vault sees it: the environment handle, addresses,
//! the running contract's instance and persistent storage, and the ledger
//! clock.
//!
//! A value of `Address` stands for the address it denotes, so two values that
//! denote the same address are one value here. A value of `Env` stands for the
//! host state that it gives access to; operations that change storage take it
//! by `&mut`. The storage calls need a contract invocation running on the
//! `Env` and entries that are live and covered by the transaction's
//! footprint; their `requires` say so through the names below. They also fail
//! when the host's budget runs out, which is not stated here.

use soroban_sdk::{Address, Env, Symbol};
use vstd::prelude::*;

verus! {

/// The host environment handle.
#[verifier::external_type_specification]
#[verifier::external_body]
pub struct ExEnv(Env);

/// An address on the ledger (an account or a contract).
#[verifier::external_type_specification]
#[verifier::external_body]
pub struct ExAddress(Address);

/// A value kept in contract storage, by the kind under which it was written.
pub enum StoredValue {
    Bool(bool),
    Addr(Address),
    I128(i128),
    U64(u64),
    /// A value of any other kind.
    Other,
}

/// The entries of the running contract's instance storage whose key is a
/// one-element vector holding a symbol, keyed by the symbol's text.
pub uninterp spec fn instance_entries(e: Env) -> Map<Seq<char>, StoredValue>;

/// The entries of the running contract's persistent storage whose key is a
/// two-element vector holding a symbol and an address, keyed by the symbol's
/// text and the address.
pub uninterp spec fn persistent_entries(e: Env) -> Map<(Seq<char>, Address), StoredValue>;

/// Whether a contract invocation is running on the environment, so that its
/// instance storage can be read (the instance entry is live and in the
/// transaction's footprint).
pub uninterp spec fn contract_running(e: Env) -> bool;

/// Whether the running contract's instance storage can be written (its
/// instance entry is in the read-write part of the footprint).
pub uninterp spec fn instance_writable(e: Env) -> bool;

/// The persistent slots `(symbol text, address)` of the running contract that
/// a read can reach: the entry, if there is one, is live, and the footprint
/// covers the slot.
pub uninterp spec fn readable_slots(e: Env) -> Set<(Seq<char>, Address)>;

/// The persistent slots that a write can reach: the entry, if there is one,
/// is live, and the read-write part of the footprint covers the slot.
pub uninterp spec fn writable_slots(e: Env) -> Set<(Seq<char>, Address)>;

/// The sequence number of the current ledger.
pub uninterp spec fn ledger_sequence(e: Env) -> u32;

/// The close time of the current ledger, in seconds since the Unix epoch, as
/// the host's ledger information records it.
pub uninterp spec fn ledger_time(e: Env) -> u64;

/// The last ledger up to which the network lets an entry live from the
/// current one.
pub uninterp spec fn max_live_until(e: Env) -> u32;

/// The last ledger in which the running contract's instance entry is live.
pub uninterp spec fn instance_live_until(e: Env) -> u32;

/// The last ledger in which each existing persistent entry of the running
/// contract is live, by slot `(symbol text, address)`.
pub uninterp spec fn persistent_live_until(e: Env) -> Map<(Seq<char>, Address), u32>;

/// An entry's last live ledger after a request to keep it live `extend_to`
/// ledgers from the current ledger `seq` when it has `threshold` ledgers or
/// fewer left: the new value is capped at `max`, and never lowers the old one.
pub open spec fn extended_live_until(old_live: u32, seq: u32, max: u32, threshold: u32, extend_to: u32) -> u32 {
    let target: int = if seq + extend_to < max { seq + extend_to } else { max as int };
    if old_live - seq <= threshold && target > old_live {
        target as u32
    } else {
        old_live
    }
}

/// Which contract runs and which entries can be reached are as before.
pub open spec fn access_kept(old: Env, new: Env) -> bool {
    &&& contract_running(new) == contract_running(old)
    &&& instance_writable(new) == instance_writable(old)
    &&& readable_slots(new) == readable_slots(old)
    &&& writable_slots(new) == writable_slots(old)
}

/// Whether `s` can be turned into a `Symbol`: at most 32 characters, each of
/// them a letter, a digit or an underscore.
pub open spec fn is_symbol_name(s: Seq<char>) -> bool {
    &&& s.len() <= 32
    &&& forall|i: int|
        0 <= i < s.len() ==> {
            let c = #[trigger] s[i];
            ('a' <= c <= 'z') || ('A' <= c <= 'Z') || ('0' <= c <= '9') || c == '_'
        }
}

/// Whether a stored entry, if there is one, is of the kind that `probe`
/// stands for (the payload of `probe` is ignored).
pub open spec fn entry_of_kind(entry: Option<StoredValue>, probe: StoredValue) -> bool {
    match entry {
        None => true,
        Some(v) => match (v, probe) {
            (StoredValue::Bool(_), StoredValue::Bool(_)) => true,
            (StoredValue::Addr(_), StoredValue::Addr(_)) => true,
            (StoredValue::I128(_), StoredValue::I128(_)) => true,
            (StoredValue::U64(_), StoredValue::U64(_)) => true,
            _ => false,
        },
    }
}

pub open spec fn as_bool(entry: Option<StoredValue>) -> Option<bool> {
    match entry {
        Some(StoredValue::Bool(b)) => Some(b),
        _ => None,
    }
}

pub open spec fn as_address(entry: Option<StoredValue>) -> Option<Address> {
    match entry {
        Some(StoredValue::Addr(a)) => Some(a),
        _ => None,
    }
}

pub open spec fn as_i128(entry: Option<StoredValue>) -> Option<i128> {
    match entry {
        Some(StoredValue::I128(v)) => Some(v),
        _ => None,
    }
}

pub open spec fn as_u64(entry: Option<StoredValue>) -> Option<u64> {
    match entry {
        Some(StoredValue::U64(v)) => Some(v),
        _ => None,
    }
}

/// `Address::clone`: the clone denotes the same address.
pub assume_specification[ <Address as Clone>::clone ](a: &Address) -> (r: Address)
    ensures
        r == *a,
;

/// `Instance::get::<_, bool>` on the key `[Symbol(name)]`: the stored flag,
/// or `None` when nothing is stored there. The call panics when `name` is no
/// symbol, when no contract is running, or when the stored value is not a
/// flag.
#[verifier::external_body]
pub(crate) fn instance_get_bool(e: &Env, name: &str) -> (r: Option<bool>)
    requires
        is_symbol_name(name@),
        contract_running(*e),
        entry_of_kind(instance_entries(*e).get(name@), StoredValue::Bool(false)),
    ensures
        r == as_bool(instance_entries(*e).get(name@)),
{
    e.storage().instance().get::<_, bool>(&(Symbol::new(e, name),))
}

/// `Instance::get::<_, Address>` on the key `[Symbol(name)]`.
#[verifier::external_body]
pub(crate) fn instance_get_address(e: &Env, name: &str) -> (r: Option<Address>)
    requires
        is_symbol_name(name@),
        contract_running(*e),
        entry_of_kind(instance_entries(*e).get(name@), StoredValue::Addr(arbitrary())),
    ensures
        r == as_address(instance_entries(*e).get(name@)),
{
    e.storage().instance().get::<_, Address>(&(Symbol::new(e, name),))
}

/// `Instance::get::<_, i128>` on the key `[Symbol(name)]`.
#[verifier::external_body]
pub(crate) fn instance_get_i128(e: &Env, name: &str) -> (r: Option<i128>)
    requires
        is_symbol_name(name@),
        contract_running(*e),
        entry_of_kind(instance_entries(*e).get(name@), StoredValue::I128(0)),
    ensures
        r == as_i128(instance_entries(*e).get(name@)),
{
    e.storage().instance().get::<_, i128>(&(Symbol::new(e, name),))
}

/// `Instance::get::<_, u64>` on the key `[Symbol(name)]`.
#[verifier::external_body]
pub(crate) fn instance_get_u64(e: &Env, name: &str) -> (r: Option<u64>)
    requires
        is_symbol_name(name@),
        contract_running(*e),
        entry_of_kind(instance_entries(*e).get(name@), StoredValue::U64(0)),
    ensures
        r == as_u64(instance_entries(*e).get(name@)),
{
    e.storage().instance().get::<_, u64>(&(Symbol::new(e, name),))
}

/// `Instance::set` of a flag under `[Symbol(name)]`: that entry now holds the
/// flag; no other entry changes. The call panics when instance storage
/// cannot be written.
#[verifier::external_body]
pub(crate) fn instance_set_bool(e: &mut Env, name: &str, value: bool)
    requires
        is_symbol_name(name@),
        contract_running(*old(e)),
        instance_writable(*old(e)),
    ensures
        instance_entries(*final(e)) == instance_entries(*old(e)).insert(name@, StoredValue::Bool(value)),
        persistent_entries(*final(e)) == persistent_entries(*old(e)),
        contract_running(*final(e)) == contract_running(*old(e)),
        instance_writable(*final(e)) == instance_writable(*old(e)),
        readable_slots(*final(e)) == readable_slots(*old(e)),
        writable_slots(*final(e)) == writable_slots(*old(e)),
        ledger_sequence(*final(e)) == ledger_sequence(*old(e)),
        ledger_time(*final(e)) == ledger_time(*old(e)),
        max_live_until(*final(e)) == max_live_until(*old(e)),
        instance_live_until(*final(e)) == instance_live_until(*old(e)),
        persistent_live_until(*final(e)) == persistent_live_until(*old(e)),
{
    e.storage().instance().set(&(Symbol::new(e, name),), &value)
}

/// `Instance::set` of an address under `[Symbol(name)]`.
#[verifier::external_body]
pub(crate) fn instance_set_address(e: &mut Env, name: &str, value: &Address)
    requires
        is_symbol_name(name@),
        contract_running(*old(e)),
        instance_writable(*old(e)),
    ensures
        instance_entries(*final(e)) == instance_entries(*old(e)).insert(name@, StoredValue::Addr(*value)),
        persistent_entries(*final(e)) == persistent_entries(*old(e)),
        contract_running(*final(e)) == contract_running(*old(e)),
        instance_writable(*final(e)) == instance_writable(*old(e)),
        readable_slots(*final(e)) == readable_slots(*old(e)),
        writable_slots(*final(e)) == writable_slots(*old(e)),
        ledger_sequence(*final(e)) == ledger_sequence(*old(e)),
        ledger_time(*final(e)) == ledger_time(*old(e)),
        max_live_until(*final(e)) == max_live_until(*old(e)),
        instance_live_until(*final(e)) == instance_live_until(*old(e)),
        persistent_live_until(*final(e)) == persistent_live_until(*old(e)),
{
    e.storage().instance().set(&(Symbol::new(e, name),), value)
}

/// `Instance::set` of an `i128` under `[Symbol(name)]`.
#[verifier::external_body]
pub(crate) fn instance_set_i128(e: &mut Env, name: &str, value: i128)
    requires
        is_symbol_name(name@),
        contract_running(*old(e)),
        instance_writable(*old(e)),
    ensures
        instance_entries(*final(e)) == instance_entries(*old(e)).insert(name@, StoredValue::I128(value)),
        persistent_entries(*final(e)) == persistent_entries(*old(e)),
        contract_running(*final(e)) == contract_running(*old(e)),
        instance_writable(*final(e)) == instance_writable(*old(e)),
        readable_slots(*final(e)) == readable_slots(*old(e)),
        writable_slots(*final(e)) == writable_slots(*old(e)),
        ledger_sequence(*final(e)) == ledger_sequence(*old(e)),
        ledger_time(*final(e)) == ledger_time(*old(e)),
        max_live_until(*final(e)) == max_live_until(*old(e)),
        instance_live_until(*final(e)) == instance_live_until(*old(e)),
        persistent_live_until(*final(e)) == persistent_live_until(*old(e)),
{
    e.storage().instance().set(&(Symbol::new(e, name),), &value)
}

/// `Instance::set` of a `u64` under `[Symbol(name)]`.
#[verifier::external_body]
pub(crate) fn instance_set_u64(e: &mut Env, name: &str, value: u64)
    requires
        is_symbol_name(name@),
        contract_running(*old(e)),
        instance_writable(*old(e)),
    ensures
        instance_entries(*final(e)) == instance_entries(*old(e)).insert(name@, StoredValue::U64(value)),
        persistent_entries(*final(e)) == persistent_entries(*old(e)),
        contract_running(*final(e)) == contract_running(*old(e)),
        instance_writable(*final(e)) == instance_writable(*old(e)),
        readable_slots(*final(e)) == readable_slots(*old(e)),
        writable_slots(*final(e)) == writable_slots(*old(e)),
        ledger_sequence(*final(e)) == ledger_sequence(*old(e)),
        ledger_time(*final(e)) == ledger_time(*old(e)),
        max_live_until(*final(e)) == max_live_until(*old(e)),
        instance_live_until(*final(e)) == instance_live_until(*old(e)),
        persistent_live_until(*final(e)) == persistent_live_until(*old(e)),
{
    e.storage().instance().set(&(Symbol::new(e, name),), &value)
}

/// `Instance::remove` of `[Symbol(name)]`: that entry is gone (a no-op when
/// there was none); no other entry changes.
#[verifier::external_body]
pub(crate) fn instance_remove(e: &mut Env, name: &str)
    requires
        is_symbol_name(name@),
        contract_running(*old(e)),
        instance_writable(*old(e)),
    ensures
        instance_entries(*final(e)) == instance_entries(*old(e)).remove(name@),
        persistent_entries(*final(e)) == persistent_entries(*old(e)),
        contract_running(*final(e)) == contract_running(*old(e)),
        instance_writable(*final(e)) == instance_writable(*old(e)),
        readable_slots(*final(e)) == readable_slots(*old(e)),
        writable_slots(*final(e)) == writable_slots(*old(e)),
        ledger_sequence(*final(e)) == ledger_sequence(*old(e)),
        ledger_time(*final(e)) == ledger_time(*old(e)),
        max_live_until(*final(e)) == max_live_until(*old(e)),
        instance_live_until(*final(e)) == instance_live_until(*old(e)),
        persistent_live_until(*final(e)) == persistent_live_until(*old(e)),
{
    e.storage().instance().remove(&(Symbol::new(e, name),))
}

/// `Instance::extend_ttl`: when the contract instance has `threshold`
/// ledgers or fewer left, keeps it live `extend_to` ledgers from now, capped
/// at the network maximum; it changes no stored value. It does the same for
/// the contract's code entry, which is not modelled here. It fails when
/// `threshold > extend_to` or when no contract is running.
#[verifier::external_body]
pub(crate) fn instance_extend_ttl(e: &mut Env, threshold: u32, extend_to: u32)
    requires
        contract_running(*old(e)),
        threshold <= extend_to,
    ensures
        instance_entries(*final(e)) == instance_entries(*old(e)),
        persistent_entries(*final(e)) == persistent_entries(*old(e)),
        contract_running(*final(e)) == contract_running(*old(e)),
        instance_writable(*final(e)) == instance_writable(*old(e)),
        readable_slots(*final(e)) == readable_slots(*old(e)),
        writable_slots(*final(e)) == writable_slots(*old(e)),
        ledger_sequence(*final(e)) == ledger_sequence(*old(e)),
        ledger_time(*final(e)) == ledger_time(*old(e)),
        max_live_until(*final(e)) == max_live_until(*old(e)),
        instance_live_until(*final(e)) == extended_live_until(
            instance_live_until(*old(e)),
            ledger_sequence(*old(e)),
            max_live_until(*old(e)),
            threshold,
            extend_to,
        ),
        persistent_live_until(*final(e)) == persistent_live_until(*old(e)),
{
    e.storage().instance().extend_ttl(threshold, extend_to)
}

/// `Persistent::get::<_, i128>` on the key `[Symbol(name), user]`. The call
/// panics when the slot cannot be read or holds a value of another kind.
#[verifier::external_body]
pub(crate) fn persistent_get_i128(e: &Env, name: &str, user: &Address) -> (r: Option<i128>)
    requires
        is_symbol_name(name@),
        contract_running(*e),
        readable_slots(*e).contains((name@, *user)),
        entry_of_kind(persistent_entries(*e).get((name@, *user)), StoredValue::I128(0)),
    ensures
        r == as_i128(persistent_entries(*e).get((name@, *user))),
{
    e.storage().persistent().get::<_, i128>(&(Symbol::new(e, name), user.clone()))
}

/// `Persistent::get::<_, u64>` on the key `[Symbol(name), user]`.
#[verifier::external_body]
pub(crate) fn persistent_get_u64(e: &Env, name: &str, user: &Address) -> (r: Option<u64>)
    requires
        is_symbol_name(name@),
        contract_running(*e),
        readable_slots(*e).contains((name@, *user)),
        entry_of_kind(persistent_entries(*e).get((name@, *user)), StoredValue::U64(0)),
    ensures
        r == as_u64(persistent_entries(*e).get((name@, *user))),
{
    e.storage().persistent().get::<_, u64>(&(Symbol::new(e, name), user.clone()))
}

/// `Persistent::set` of an `i128` under `[Symbol(name), user]`: that entry now
/// holds the value; no other entry, nor any other entry's lifetime, changes
/// (the lifetime of a newly created entry is the network's minimum, which is
/// not modelled here). The call panics when the slot
/// cannot be written.
#[verifier::external_body]
pub(crate) fn persistent_set_i128(e: &mut Env, name: &str, user: &Address, value: i128)
    requires
        is_symbol_name(name@),
        contract_running(*old(e)),
        writable_slots(*old(e)).contains((name@, *user)),
    ensures
        persistent_entries(*final(e)) == persistent_entries(*old(e)).insert((name@, *user), StoredValue::I128(value)),
        instance_entries(*final(e)) == instance_entries(*old(e)),
        contract_running(*final(e)) == contract_running(*old(e)),
        instance_writable(*final(e)) == instance_writable(*old(e)),
        readable_slots(*final(e)) == readable_slots(*old(e)),
        writable_slots(*final(e)) == writable_slots(*old(e)),
        ledger_sequence(*final(e)) == ledger_sequence(*old(e)),
        ledger_time(*final(e)) == ledger_time(*old(e)),
        max_live_until(*final(e)) == max_live_until(*old(e)),
        instance_live_until(*final(e)) == instance_live_until(*old(e)),
        persistent_live_until(*final(e)).remove((name@, *user)) == persistent_live_until(*old(e)).remove((name@, *user)),
{
    e.storage().persistent().set(&(Symbol::new(e, name), user.clone()), &value)
}

/// `Persistent::set` of a `u64` under `[Symbol(name), user]`.
#[verifier::external_body]
pub(crate) fn persistent_set_u64(e: &mut Env, name: &str, user: &Address, value: u64)
    requires
        is_symbol_name(name@),
        contract_running(*old(e)),
        writable_slots(*old(e)).contains((name@, *user)),
    ensures
        persistent_entries(*final(e)) == persistent_entries(*old(e)).insert((name@, *user), StoredValue::U64(value)),
        instance_entries(*final(e)) == instance_entries(*old(e)),
        contract_running(*final(e)) == contract_running(*old(e)),
        instance_writable(*final(e)) == instance_writable(*old(e)),
        readable_slots(*final(e)) == readable_slots(*old(e)),
        writable_slots(*final(e)) == writable_slots(*old(e)),
        ledger_sequence(*final(e)) == ledger_sequence(*old(e)),
        ledger_time(*final(e)) == ledger_time(*old(e)),
        max_live_until(*final(e)) == max_live_until(*old(e)),
        instance_live_until(*final(e)) == instance_live_until(*old(e)),
        persistent_live_until(*final(e)).remove((name@, *user)) == persistent_live_until(*old(e)).remove((name@, *user)),
{
    e.storage().persistent().set(&(Symbol::new(e, name), user.clone()), &value)
}

/// `Persistent::remove` of `[Symbol(name), user]`: that entry is gone (a
/// no-op when there was none); no other entry changes.
#[verifier::external_body]
pub(crate) fn persistent_remove(e: &mut Env, name: &str, user: &Address)
    requires
        is_symbol_name(name@),
        contract_running(*old(e)),
        writable_slots(*old(e)).contains((name@, *user)),
    ensures
        persistent_entries(*final(e)) == persistent_entries(*old(e)).remove((name@, *user)),
        instance_entries(*final(e)) == instance_entries(*old(e)),
        contract_running(*final(e)) == contract_running(*old(e)),
        instance_writable(*final(e)) == instance_writable(*old(e)),
        readable_slots(*final(e)) == readable_slots(*old(e)),
        writable_slots(*final(e)) == writable_slots(*old(e)),
        ledger_sequence(*final(e)) == ledger_sequence(*old(e)),
        ledger_time(*final(e)) == ledger_time(*old(e)),
        max_live_until(*final(e)) == max_live_until(*old(e)),
        instance_live_until(*final(e)) == instance_live_until(*old(e)),
        persistent_live_until(*final(e)).remove((name@, *user)) == persistent_live_until(*old(e)).remove((name@, *user)),
{
    e.storage().persistent().remove(&(Symbol::new(e, name), user.clone()))
}

/// `Persistent::extend_ttl` of `[Symbol(name), user]`: when that entry has
/// `threshold` ledgers or fewer left, keeps it live `extend_to` ledgers from
/// now, capped at the network maximum; it changes no stored value. It fails when the entry does not
/// exist, when it cannot be reached, or when `threshold > extend_to`.
#[verifier::external_body]
pub(crate) fn persistent_extend_ttl(e: &mut Env, name: &str, user: &Address, threshold: u32, extend_to: u32)
    requires
        is_symbol_name(name@),
        contract_running(*old(e)),
        readable_slots(*old(e)).contains((name@, *user)),
        persistent_entries(*old(e)).contains_key((name@, *user)),
        threshold <= extend_to,
    ensures
        instance_entries(*final(e)) == instance_entries(*old(e)),
        persistent_entries(*final(e)) == persistent_entries(*old(e)),
        contract_running(*final(e)) == contract_running(*old(e)),
        instance_writable(*final(e)) == instance_writable(*old(e)),
        readable_slots(*final(e)) == readable_slots(*old(e)),
        writable_slots(*final(e)) == writable_slots(*old(e)),
        ledger_sequence(*final(e)) == ledger_sequence(*old(e)),
        ledger_time(*final(e)) == ledger_time(*old(e)),
        max_live_until(*final(e)) == max_live_until(*old(e)),
        instance_live_until(*final(e)) == instance_live_until(*old(e)),
        persistent_live_until(*final(e)) == persistent_live_until(*old(e)).insert(
            (name@, *user),
            extended_live_until(
                persistent_live_until(*old(e))[(name@, *user)],
                ledger_sequence(*old(e)),
                max_live_until(*old(e)),
                threshold,
                extend_to,
            ),
        ),
{
    e.storage().persistent().extend_ttl(&(Symbol::new(e, name), user.clone()), threshold, extend_to)
}

/// `Ledger::timestamp`: the close time of the current ledger, read from the
/// host's ledger information.
#[verifier::external_body]
pub(crate) fn ledger_timestamp(e: &Env) -> (r: u64)
    ensures
        r == ledger_time(*e),
{
    e.ledger().timestamp()
}

} // verus!
