//! State and rules of a NEAR contract that keeps users' token balances,
//! liquidity-pool shares, farmed seeds and native stakes.
//!
//! The contract's methods take the caller (the predecessor account) and the
//! attached deposit as arguments and hand back what the contract answers,
//! together with the cross-contract calls it asks for (`calls`); reading
//! the runtime, keeping the state in storage and sending the calls is left
//! to the binding around this library.

pub mod calls;
pub mod errors;
pub mod farm;
pub mod internals;
pub mod laws;
pub mod ordered_map;
pub mod owner;
pub mod ref_finance;
pub mod stake;
pub mod storage;
pub mod text;
pub mod token_receiver;
pub mod user;
pub mod utils;

use vstd::prelude::*;
use crate::ordered_map::OrderedMap;
use crate::storage::{clean, len_after, listed, readable, slots_at, visible, writable, written, AmountMap, Slots, SlotsView};
use crate::utils::{DEFAULT_MESSAGE, DEFAULT_OWNER};

verus! {

/// The seeds an account farms: farm (pool) ID to amount.
pub struct FarmData {
    pub farms: AmountMap,
}

/// The liquidity-pool shares an account holds: pool ID to shares.
pub struct PoolData {
    pub pools: AmountMap,
}

/// The tokens an account has deposited: token account ID to amount.
pub struct UserBalance {
    pub tokens: AmountMap,
}

/// The contract's state. The per-account maps of the records live in
/// storage under a prefix of their own, kept in `pool_slots`, `farm_slots`
/// and `token_slots` by the account that owns the prefix.
pub struct Contract {
    pub message: String,
    pub owner_id: String,
    /// Stake-list key (account ID followed by `_near`) to staked yoctoNEAR.
    pub stake_list: OrderedMap<u128>,
    pub poolers: OrderedMap<PoolData>,
    pub farmers: OrderedMap<FarmData>,
    pub user_balance: OrderedMap<UserBalance>,
    pub pool_slots: OrderedMap<Slots>,
    pub farm_slots: OrderedMap<Slots>,
    pub token_slots: OrderedMap<Slots>,
}

/// The amount that `m` holds under `k`, or 0 where it holds none.
pub open spec fn amount_or_zero(m: Map<Seq<char>, u128>, k: Seq<char>) -> u128 {
    if m.contains_key(k) {
        m[k]
    } else {
        0
    }
}

/// The amount that `m` holds under `k`, if any.
pub open spec fn lookup(m: Map<Seq<char>, u128>, k: Seq<char>) -> Option<u128> {
    if m.contains_key(k) {
        Some(m[k])
    } else {
        None
    }
}

/// The prefix that `account`'s map lives under: its record's, or its own
/// for a map created when it has no record.
pub open spec fn map_owner(m: Option<AmountMap>, account: Seq<char>) -> Seq<char> {
    match m {
        Some(h) => h.owner@,
        None => account,
    }
}

/// The count of `account`'s map: its record's, or 0 for a new map.
pub open spec fn map_len(m: Option<AmountMap>) -> nat {
    match m {
        Some(h) => h.len as nat,
        None => 0,
    }
}

/// What storage holds for `account`'s map.
pub open spec fn map_slots(store: Map<Seq<char>, Slots>, m: Option<AmountMap>, account: Seq<char>) -> SlotsView {
    slots_at(store, map_owner(m, account))
}

/// Reading `k` from `account`'s map does not stop the call (an account
/// without a record reads nothing).
pub open spec fn map_reads(store: Map<Seq<char>, Slots>, m: Option<AmountMap>, k: Seq<char>) -> bool {
    match m {
        Some(h) => readable(slots_at(store, h.owner@), h.len as nat, k),
        None => true,
    }
}

/// Writing `k` into `account`'s map (a new one where it has no record)
/// does not stop the call.
pub open spec fn map_writes(store: Map<Seq<char>, Slots>, m: Option<AmountMap>, account: Seq<char>, k: Seq<char>) -> bool {
    writable(map_slots(store, m, account), map_len(m), k)
}

impl Contract {
    /// `account`'s token map, if it has a record.
    pub open spec fn token_map(&self, account: Seq<char>) -> Option<AmountMap> {
        if self.user_balance@.contains_key(account) {
            Some(self.user_balance@[account].tokens)
        } else {
            None
        }
    }

    /// `account`'s pool map, if it has a record.
    pub open spec fn pool_map(&self, account: Seq<char>) -> Option<AmountMap> {
        if self.poolers@.contains_key(account) {
            Some(self.poolers@[account].pools)
        } else {
            None
        }
    }

    /// `account`'s farm map, if it has a record.
    pub open spec fn farm_map(&self, account: Seq<char>) -> Option<AmountMap> {
        if self.farmers@.contains_key(account) {
            Some(self.farmers@[account].farms)
        } else {
            None
        }
    }

    /// The tokens `account` reads as deposited.
    pub open spec fn tokens_of(&self, account: Seq<char>) -> Map<Seq<char>, u128> {
        visible(
            map_slots(self.token_slots@, self.token_map(account), account),
            map_len(self.token_map(account)),
        )
    }

    /// The rows a balance listing of `account` shows, in order.
    pub open spec fn token_listing(&self, account: Seq<char>) -> Seq<(Seq<char>, u128)> {
        listed(
            map_slots(self.token_slots@, self.token_map(account), account),
            map_len(self.token_map(account)),
        )
    }

    /// How much of `token` `account` reads as deposited.
    pub open spec fn balance_of(&self, account: Seq<char>, token: Seq<char>) -> u128 {
        amount_or_zero(self.tokens_of(account), token)
    }

    /// Reading `token` of `account` does not stop the call.
    pub open spec fn token_reads(&self, account: Seq<char>, token: Seq<char>) -> bool {
        map_reads(self.token_slots@, self.token_map(account), token)
    }

    /// Writing `token` of `account` does not stop the call.
    pub open spec fn token_writes(&self, account: Seq<char>, token: Seq<char>) -> bool {
        map_writes(self.token_slots@, self.token_map(account), account, token)
    }

    /// The pool shares `account` reads as held.
    pub open spec fn pools_of(&self, account: Seq<char>) -> Map<Seq<char>, u128> {
        visible(
            map_slots(self.pool_slots@, self.pool_map(account), account),
            map_len(self.pool_map(account)),
        )
    }

    /// The rows a pool listing of `account` shows, in order.
    pub open spec fn pool_listing(&self, account: Seq<char>) -> Seq<(Seq<char>, u128)> {
        listed(
            map_slots(self.pool_slots@, self.pool_map(account), account),
            map_len(self.pool_map(account)),
        )
    }

    /// The shares of `pool` that `account` reads as held.
    pub open spec fn shares_of(&self, account: Seq<char>, pool: Seq<char>) -> u128 {
        amount_or_zero(self.pools_of(account), pool)
    }

    /// Reading `pool` of `account` does not stop the call.
    pub open spec fn pool_reads(&self, account: Seq<char>, pool: Seq<char>) -> bool {
        map_reads(self.pool_slots@, self.pool_map(account), pool)
    }

    /// Writing `pool` of `account` does not stop the call.
    pub open spec fn pool_writes(&self, account: Seq<char>, pool: Seq<char>) -> bool {
        map_writes(self.pool_slots@, self.pool_map(account), account, pool)
    }

    /// The seeds `account` reads as farmed.
    pub open spec fn farms_of(&self, account: Seq<char>) -> Map<Seq<char>, u128> {
        visible(
            map_slots(self.farm_slots@, self.farm_map(account), account),
            map_len(self.farm_map(account)),
        )
    }

    /// The rows a farm listing of `account` shows, in order.
    pub open spec fn farm_listing(&self, account: Seq<char>) -> Seq<(Seq<char>, u128)> {
        listed(
            map_slots(self.farm_slots@, self.farm_map(account), account),
            map_len(self.farm_map(account)),
        )
    }

    /// The amount of `farm` that `account` reads as farmed.
    pub open spec fn farmed_of(&self, account: Seq<char>, farm: Seq<char>) -> u128 {
        amount_or_zero(self.farms_of(account), farm)
    }

    /// Reading `farm` of `account` does not stop the call.
    pub open spec fn farm_reads(&self, account: Seq<char>, farm: Seq<char>) -> bool {
        map_reads(self.farm_slots@, self.farm_map(account), farm)
    }

    /// Writing `farm` of `account` does not stop the call.
    pub open spec fn farm_writes(&self, account: Seq<char>, farm: Seq<char>) -> bool {
        map_writes(self.farm_slots@, self.farm_map(account), account, farm)
    }

    /// `account`'s token map reads as an ordinary map (see `clean`).
    pub open spec fn tokens_clean(&self, account: Seq<char>) -> bool {
        clean(map_slots(self.token_slots@, self.token_map(account), account), map_len(self.token_map(account)))
    }

    /// `account`'s pool map reads as an ordinary map (see `clean`).
    pub open spec fn pools_clean(&self, account: Seq<char>) -> bool {
        clean(map_slots(self.pool_slots@, self.pool_map(account), account), map_len(self.pool_map(account)))
    }

    /// `account`'s farm map reads as an ordinary map (see `clean`).
    pub open spec fn farms_clean(&self, account: Seq<char>) -> bool {
        clean(map_slots(self.farm_slots@, self.farm_map(account), account), map_len(self.farm_map(account)))
    }

    /// The stake held under the stake-list key `key`.
    pub open spec fn stake_of(&self, key: Seq<char>) -> u128 {
        amount_or_zero(self.stake_list@, key)
    }

    /// Every account that farms also holds pool shares.
    pub open spec fn farmers_are_poolers(&self) -> bool {
        forall|a: Seq<char>| #[trigger] self.farmers@.contains_key(a) ==> self.poolers@.contains_key(a)
    }

    /// `new` is `old` after `amount` is written under `token` through
    /// `account`'s token map (a new one over its own prefix where it has no
    /// record) and the map is stored back as `account`'s record.
    pub open spec fn token_set(old: Contract, new: Contract, account: Seq<char>, token: Seq<char>, amount: u128) -> bool {
        let m = old.token_map(account);
        let s = map_slots(old.token_slots@, m, account);
        let owner = map_owner(m, account);
        &&& new.user_balance@.contains_key(account)
        &&& new.user_balance@.remove(account) == old.user_balance@.remove(account)
        &&& new.user_balance.keys() == old.user_balance.keys_after_insert(account)
        &&& new.user_balance@[account].tokens.owner@ == owner
        &&& new.user_balance@[account].tokens.len == len_after(s, map_len(m), token)
        &&& slots_at(new.token_slots@, owner) == written(s, map_len(m), token, amount)
        &&& new.token_slots@.remove(owner) == old.token_slots@.remove(owner)
    }

    /// `new` is `old` after `amount` is written under `pool` through
    /// `account`'s pool map (a new one where it has no record) and the map is
    /// stored back as `account`'s record.
    pub open spec fn pool_set(old: Contract, new: Contract, account: Seq<char>, pool: Seq<char>, amount: u128) -> bool {
        let m = old.pool_map(account);
        let s = map_slots(old.pool_slots@, m, account);
        let owner = map_owner(m, account);
        &&& new.poolers@.contains_key(account)
        &&& new.poolers@.remove(account) == old.poolers@.remove(account)
        &&& new.poolers.keys() == old.poolers.keys_after_insert(account)
        &&& new.poolers@[account].pools.owner@ == owner
        &&& new.poolers@[account].pools.len == len_after(s, map_len(m), pool)
        &&& slots_at(new.pool_slots@, owner) == written(s, map_len(m), pool, amount)
        &&& new.pool_slots@.remove(owner) == old.pool_slots@.remove(owner)
    }

    /// `new` is `old` after `amount` is written under `farm` through
    /// `account`'s farm map (a new one where it has no record) and the map is
    /// stored back as `account`'s record.
    pub open spec fn farm_set(old: Contract, new: Contract, account: Seq<char>, farm: Seq<char>, amount: u128) -> bool {
        let m = old.farm_map(account);
        let s = map_slots(old.farm_slots@, m, account);
        let owner = map_owner(m, account);
        &&& new.farmers@.contains_key(account)
        &&& new.farmers@.remove(account) == old.farmers@.remove(account)
        &&& new.farmers.keys() == old.farmers.keys_after_insert(account)
        &&& new.farmers@[account].farms.owner@ == owner
        &&& new.farmers@[account].farms.len == len_after(s, map_len(m), farm)
        &&& slots_at(new.farm_slots@, owner) == written(s, map_len(m), farm, amount)
        &&& new.farm_slots@.remove(owner) == old.farm_slots@.remove(owner)
    }

    /// `new` is `old` after `amount` is written under `pool` through a copy
    /// of `account`'s pool record that is not stored back: storage changes,
    /// the record keeps its count.
    pub open spec fn pool_set_through_copy(old: Contract, new: Contract, account: Seq<char>, pool: Seq<char>, amount: u128) -> bool {
        let h = old.poolers@[account].pools;
        &&& new.poolers == old.poolers
        &&& slots_at(new.pool_slots@, h.owner@) == written(slots_at(old.pool_slots@, h.owner@), h.len as nat, pool, amount)
        &&& new.pool_slots@.remove(h.owner@) == old.pool_slots@.remove(h.owner@)
    }

    /// `new` is `old` after `amount` is written under `farm` through a copy
    /// of `account`'s farm record that is not stored back: storage changes,
    /// the record keeps its count.
    pub open spec fn farm_set_through_copy(old: Contract, new: Contract, account: Seq<char>, farm: Seq<char>, amount: u128) -> bool {
        let h = old.farmers@[account].farms;
        &&& new.farmers == old.farmers
        &&& slots_at(new.farm_slots@, h.owner@) == written(slots_at(old.farm_slots@, h.owner@), h.len as nat, farm, amount)
        &&& new.farm_slots@.remove(h.owner@) == old.farm_slots@.remove(h.owner@)
    }

    /// Only the user balances differ between `old` and `new`.
    pub open spec fn only_balances_differ(old: Contract, new: Contract) -> bool {
        &&& new.message == old.message
        &&& new.owner_id == old.owner_id
        &&& new.stake_list == old.stake_list
        &&& new.poolers == old.poolers
        &&& new.farmers == old.farmers
        &&& new.pool_slots == old.pool_slots
        &&& new.farm_slots == old.farm_slots
    }

    /// Only the pool shares differ between `old` and `new`.
    pub open spec fn only_pools_differ(old: Contract, new: Contract) -> bool {
        &&& new.message == old.message
        &&& new.owner_id == old.owner_id
        &&& new.stake_list == old.stake_list
        &&& new.farmers == old.farmers
        &&& new.user_balance == old.user_balance
        &&& new.farm_slots == old.farm_slots
        &&& new.token_slots == old.token_slots
    }

    /// Only the farms differ between `old` and `new`.
    pub open spec fn only_farms_differ(old: Contract, new: Contract) -> bool {
        &&& new.message == old.message
        &&& new.owner_id == old.owner_id
        &&& new.stake_list == old.stake_list
        &&& new.poolers == old.poolers
        &&& new.user_balance == old.user_balance
        &&& new.pool_slots == old.pool_slots
        &&& new.token_slots == old.token_slots
    }

    /// Only the pool shares and the farms differ between `old` and `new`.
    pub open spec fn only_pools_and_farms_differ(old: Contract, new: Contract) -> bool {
        &&& new.message == old.message
        &&& new.owner_id == old.owner_id
        &&& new.stake_list == old.stake_list
        &&& new.user_balance == old.user_balance
        &&& new.token_slots == old.token_slots
    }

    /// Only the stake list differs between `old` and `new`.
    pub open spec fn only_stakes_differ(old: Contract, new: Contract) -> bool {
        &&& new.message == old.message
        &&& new.owner_id == old.owner_id
        &&& new.poolers == old.poolers
        &&& new.farmers == old.farmers
        &&& new.user_balance == old.user_balance
        &&& new.pool_slots == old.pool_slots
        &&& new.farm_slots == old.farm_slots
        &&& new.token_slots == old.token_slots
    }

    /// Nothing is held or stored yet.
    pub open spec fn is_empty_state(&self) -> bool {
        &&& self.stake_list@ == Map::<Seq<char>, u128>::empty()
        &&& self.stake_list.keys() == Seq::<Seq<char>>::empty()
        &&& self.poolers@ == Map::<Seq<char>, PoolData>::empty()
        &&& self.poolers.keys() == Seq::<Seq<char>>::empty()
        &&& self.farmers@ == Map::<Seq<char>, FarmData>::empty()
        &&& self.farmers.keys() == Seq::<Seq<char>>::empty()
        &&& self.user_balance@ == Map::<Seq<char>, UserBalance>::empty()
        &&& self.user_balance.keys() == Seq::<Seq<char>>::empty()
        &&& self.pool_slots@ == Map::<Seq<char>, Slots>::empty()
        &&& self.farm_slots@ == Map::<Seq<char>, Slots>::empty()
        &&& self.token_slots@ == Map::<Seq<char>, Slots>::empty()
    }

    /// A contract with the given greeting and owner and nothing else.
    pub fn new(message: String, owner_id: String) -> (c: Self)
        ensures
            c.message@ == message@,
            c.owner_id@ == owner_id@,
            c.is_empty_state(),
            c.farmers_are_poolers(),
    {
        Contract {
            owner_id: owner_id,
            message: message,
            stake_list: OrderedMap::new(),
            poolers: OrderedMap::new(),
            farmers: OrderedMap::new(),
            user_balance: OrderedMap::new(),
            pool_slots: OrderedMap::new(),
            farm_slots: OrderedMap::new(),
            token_slots: OrderedMap::new(),
        }
    }

    /// The greeting.
    pub fn get_greeting(&self) -> (m: String)
        ensures
            m@ == self.message@,
    {
        self.message.clone()
    }

    /// Replaces the greeting.
    pub fn set_greeting(&mut self, message: String)
        ensures
            final(self).message@ == message@,
            final(self).owner_id == old(self).owner_id,
            final(self).stake_list == old(self).stake_list,
            final(self).poolers == old(self).poolers,
            final(self).farmers == old(self).farmers,
            final(self).user_balance == old(self).user_balance,
            final(self).pool_slots == old(self).pool_slots,
            final(self).farm_slots == old(self).farm_slots,
            final(self).token_slots == old(self).token_slots,
            old(self).farmers_are_poolers() ==> final(self).farmers_are_poolers(),
    {
        self.message = message;
    }
}

impl Default for Contract {
    /// A contract greeting with `DEFAULT_MESSAGE`, owned by `DEFAULT_OWNER`,
    /// with nothing else.
    fn default() -> (c: Self)
        ensures
            c.message@ == DEFAULT_MESSAGE@,
            c.owner_id@ == DEFAULT_OWNER@,
            c.is_empty_state(),
            c.farmers_are_poolers(),
    {
        Contract::new(DEFAULT_MESSAGE.to_owned(), DEFAULT_OWNER.to_owned())
    }
}

} // verus!
