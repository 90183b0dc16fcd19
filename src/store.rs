//! The contract host's storage maps, reached through trusted items. Each table
//! keeps an `ink_storage` hash map in a private field; what it holds is named as
//! a plain map, and each call states what it does to that map.
use vstd::prelude::*;
use crate::account::AccountId;
use ink_env::AccountId as HostAccount;
use ink_storage::collections::HashMap;

verus! {

/// The balance recorded for each account.
#[verifier::external_body]
pub struct BalanceTable {
    map: HashMap<HostAccount, u128>,
}

/// The allowance recorded for each (owner, spender) pair.
#[verifier::external_body]
pub struct AllowanceTable {
    map: HashMap<(HostAccount, HostAccount), u128>,
}

/// The number recorded for each account.
#[verifier::external_body]
pub struct NumberTable {
    map: HashMap<HostAccount, i32>,
}

/// What a balance table holds.
pub uninterp spec fn balances_held(t: BalanceTable) -> Map<AccountId, u128>;

/// What an allowance table holds.
pub uninterp spec fn allowances_held(t: AllowanceTable) -> Map<(AccountId, AccountId), u128>;

/// What a number table holds.
pub uninterp spec fn numbers_held(t: NumberTable) -> Map<AccountId, i32>;

/// The entry of `k` in `m`, if there is one.
pub open spec fn entry<K, V>(m: Map<K, V>, k: K) -> Option<V> {
    if m.dom().contains(k) {
        Some(m[k])
    } else {
        None
    }
}

impl BalanceTable {
    /// Relies on ink_storage's `HashMap::new`: the map starts empty.
    #[verifier::external_body]
    pub(crate) fn new() -> (r: BalanceTable)
        ensures
            balances_held(r) =~= Map::empty(),
    {
        BalanceTable { map: HashMap::new() }
    }

    /// Relies on ink_storage's `HashMap::get`: the value stored under the key, if any.
    #[verifier::external_body]
    pub(crate) fn get(&self, k: &AccountId) -> (r: Option<u128>)
        ensures
            r == entry(balances_held(*self), *k),
    {
        self.map.get(&HostAccount::from(k.bytes)).copied()
    }

    /// Relies on ink_storage's `HashMap::insert`: the key's value becomes `v`, the
    /// other entries stay.
    #[verifier::external_body]
    pub(crate) fn insert(&mut self, k: AccountId, v: u128)
        ensures
            balances_held(*final(self)) == balances_held(*old(self)).insert(k, v),
    {
        self.map.insert(HostAccount::from(k.bytes), v);
    }
}

impl AllowanceTable {
    /// Relies on ink_storage's `HashMap::new`: the map starts empty.
    #[verifier::external_body]
    pub(crate) fn new() -> (r: AllowanceTable)
        ensures
            allowances_held(r) =~= Map::empty(),
    {
        AllowanceTable { map: HashMap::new() }
    }

    /// Relies on ink_storage's `HashMap::get`: the value stored under the key, if any.
    #[verifier::external_body]
    pub(crate) fn get(&self, owner: &AccountId, spender: &AccountId) -> (r: Option<u128>)
        ensures
            r == entry(allowances_held(*self), (*owner, *spender)),
    {
        self.map.get(&(HostAccount::from(owner.bytes), HostAccount::from(spender.bytes))).copied()
    }

    /// Relies on ink_storage's `HashMap::insert`: the key's value becomes `v`, the
    /// other entries stay.
    #[verifier::external_body]
    pub(crate) fn insert(&mut self, owner: AccountId, spender: AccountId, v: u128)
        ensures
            allowances_held(*final(self)) == allowances_held(*old(self)).insert((owner, spender), v),
    {
        self.map.insert((HostAccount::from(owner.bytes), HostAccount::from(spender.bytes)), v);
    }
}

impl NumberTable {
    /// Relies on ink_storage's `HashMap::new`: the map starts empty.
    #[verifier::external_body]
    pub(crate) fn new() -> (r: NumberTable)
        ensures
            numbers_held(r) =~= Map::empty(),
    {
        NumberTable { map: HashMap::new() }
    }

    /// Relies on ink_storage's `HashMap::get`: the value stored under the key, if any.
    #[verifier::external_body]
    pub(crate) fn get(&self, k: &AccountId) -> (r: Option<i32>)
        ensures
            r == entry(numbers_held(*self), *k),
    {
        self.map.get(&HostAccount::from(k.bytes)).copied()
    }
}

} // verus!
