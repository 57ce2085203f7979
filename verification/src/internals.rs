use vstd::prelude::*;
use vstd::string::*;
use crate::errors::ContractError;
use crate::farm::map_fits;
use crate::storage::{slots_fit, slots_readable, slots_writable, stored_get, stored_insert, AmountMap};
use crate::{lookup, Contract, FarmData, PoolData, UserBalance};

verus! {

/// The pool ID that a pool token ID (`:` followed by the pool ID) names.
pub open spec fn token_pool_id(s: Seq<char>) -> Option<Seq<char>> {
    if s.len() > 0 && s[0] == ':' {
        Some(s.drop_first())
    } else {
        None
    }
}

/// `s` holds `@` at position `i` and nowhere else.
pub open spec fn sole_separator(s: Seq<char>, i: int) -> bool {
    &&& 0 <= i < s.len()
    &&& s[i] == '@'
    &&& forall|j: int| 0 <= j < s.len() && #[trigger] s[j] == '@' ==> j == i
}

/// The pool ID that a seed ID (`<contract>@<pool>`) names: `s` must hold
/// exactly one `@`, followed by at least one character.
pub open spec fn seed_pool_id(s: Seq<char>) -> Option<Seq<char>> {
    if exists|i: int| sole_separator(s, i) && i + 1 < s.len() {
        let i = choose|i: int| sole_separator(s, i) && i + 1 < s.len();
        Some(s.subrange(i + 1, s.len() as int))
    } else {
        None
    }
}

impl Contract {
    /// Whether reading `token` of `account` runs.
    pub fn token_readable(&self, account: &String, token: &String) -> (r: bool)
        ensures
            r == self.token_reads(account@, token@),
    {
        match self.user_balance.get(account) {
            Some(ub) => slots_readable(&self.token_slots, &ub.tokens, token),
            None => true,
        }
    }

    /// Whether writing `token` of `account` runs.
    pub fn token_writable(&self, account: &String, token: &String) -> (r: bool)
        ensures
            r == self.token_writes(account@, token@),
    {
        match self.user_balance.get(account) {
            Some(ub) => slots_writable(&self.token_slots, &ub.tokens, token),
            None => slots_writable(&self.token_slots, &AmountMap { owner: account.clone(), len: 0 }, token),
        }
    }

    /// Whether reading `pool` of `account` runs.
    pub fn pool_readable(&self, account: &String, pool: &String) -> (r: bool)
        ensures
            r == self.pool_reads(account@, pool@),
    {
        match self.poolers.get(account) {
            Some(pd) => slots_readable(&self.pool_slots, &pd.pools, pool),
            None => true,
        }
    }

    /// Whether writing `pool` of `account` runs.
    pub fn pool_writable(&self, account: &String, pool: &String) -> (r: bool)
        ensures
            r == self.pool_writes(account@, pool@),
    {
        match self.poolers.get(account) {
            Some(pd) => slots_writable(&self.pool_slots, &pd.pools, pool),
            None => slots_writable(&self.pool_slots, &AmountMap { owner: account.clone(), len: 0 }, pool),
        }
    }

    /// Whether reading `farm` of `account` runs.
    pub fn farm_readable(&self, account: &String, farm: &String) -> (r: bool)
        ensures
            r == self.farm_reads(account@, farm@),
    {
        match self.farmers.get(account) {
            Some(fd) => slots_readable(&self.farm_slots, &fd.farms, farm),
            None => true,
        }
    }

    /// Whether writing `farm` of `account` runs.
    pub fn farm_writable(&self, account: &String, farm: &String) -> (r: bool)
        ensures
            r == self.farm_writes(account@, farm@),
    {
        match self.farmers.get(account) {
            Some(fd) => slots_writable(&self.farm_slots, &fd.farms, farm),
            None => slots_writable(&self.farm_slots, &AmountMap { owner: account.clone(), len: 0 }, farm),
        }
    }

    /// Whether listing the maps of `account` runs: every position its
    /// records count is stored.
    pub fn listings_fit(&self, account: &String) -> (r: (bool, bool, bool))
        ensures
            r.0 == map_fits(self.pool_slots@, self.pool_map(account@)),
            r.1 == map_fits(self.farm_slots@, self.farm_map(account@)),
            r.2 == map_fits(self.token_slots@, self.token_map(account@)),
    {
        let pools = match self.poolers.get(account) {
            Some(pd) => slots_fit(&self.pool_slots, &pd.pools),
            None => true,
        };
        let farms = match self.farmers.get(account) {
            Some(fd) => slots_fit(&self.farm_slots, &fd.farms),
            None => true,
        };
        let tokens = match self.user_balance.get(account) {
            Some(ub) => slots_fit(&self.token_slots, &ub.tokens),
            None => true,
        };
        (pools, farms, tokens)
    }

    /// How much of `token` `account` reads as deposited, if it has an entry for it.
    pub fn token_amount(&self, account: &String, token: &String) -> (r: Option<u128>)
        requires
            self.token_reads(account@, token@),
        ensures
            r == lookup(self.tokens_of(account@), token@),
    {
        match self.user_balance.get(account) {
            Some(ub) => stored_get(&self.token_slots, &ub.tokens, token),
            None => None,
        }
    }

    /// The shares of `pool` that `account` reads as held, if it has an entry for them.
    pub fn pool_amount(&self, account: &String, pool: &String) -> (r: Option<u128>)
        requires
            self.pool_reads(account@, pool@),
        ensures
            r == lookup(self.pools_of(account@), pool@),
    {
        match self.poolers.get(account) {
            Some(pd) => stored_get(&self.pool_slots, &pd.pools, pool),
            None => None,
        }
    }

    /// The amount of `farm` that `account` reads as farmed, if it has an entry for it.
    pub fn farm_amount(&self, account: &String, farm: &String) -> (r: Option<u128>)
        requires
            self.farm_reads(account@, farm@),
        ensures
            r == lookup(self.farms_of(account@), farm@),
    {
        match self.farmers.get(account) {
            Some(fd) => stored_get(&self.farm_slots, &fd.farms, farm),
            None => None,
        }
    }

    /// Writes `amount` under `token` through `account`'s token map (a new one
    /// over its own prefix where it has no record) and stores the map back.
    pub(crate) fn set_token(&mut self, account: &String, token: String, amount: u128)
        requires
            old(self).token_writes(account@, token@),
        ensures
            Contract::token_set(*old(self), *final(self), account@, token@, amount),
            Contract::only_balances_differ(*old(self), *final(self)),
    {
        match self.user_balance.find(account) {
            Some(i) => {
                let placeholder = UserBalance { tokens: AmountMap { owner: String::new(), len: 0 } };
                let mut ub = self.user_balance.swap_value(i, placeholder);
                stored_insert(&mut self.token_slots, &mut ub.tokens, token, amount);
                let _ = self.user_balance.swap_value(i, ub);
            },
            None => {
                let mut tokens = AmountMap { owner: account.clone(), len: 0 };
                stored_insert(&mut self.token_slots, &mut tokens, token, amount);
                self.user_balance.insert(account.clone(), UserBalance { tokens });
            },
        }
        assert(self.user_balance@.remove(account@) =~= old(self).user_balance@.remove(account@));
    }

    /// Writes `amount` under `pool` through `account`'s pool map (a new one
    /// over its own prefix where it has no record) and stores the map back.
    pub(crate) fn set_pool(&mut self, account: &String, pool: String, amount: u128)
        requires
            old(self).pool_writes(account@, pool@),
        ensures
            Contract::pool_set(*old(self), *final(self), account@, pool@, amount),
            Contract::only_pools_differ(*old(self), *final(self)),
    {
        match self.poolers.find(account) {
            Some(i) => {
                let placeholder = PoolData { pools: AmountMap { owner: String::new(), len: 0 } };
                let mut pd = self.poolers.swap_value(i, placeholder);
                stored_insert(&mut self.pool_slots, &mut pd.pools, pool, amount);
                let _ = self.poolers.swap_value(i, pd);
            },
            None => {
                let mut pools = AmountMap { owner: account.clone(), len: 0 };
                stored_insert(&mut self.pool_slots, &mut pools, pool, amount);
                self.poolers.insert(account.clone(), PoolData { pools });
            },
        }
        assert(self.poolers@.remove(account@) =~= old(self).poolers@.remove(account@));
    }

    /// Writes `amount` under `farm` through `account`'s farm map (a new one
    /// over its own prefix where it has no record) and stores the map back.
    pub(crate) fn set_farm(&mut self, account: &String, farm: String, amount: u128)
        requires
            old(self).farm_writes(account@, farm@),
        ensures
            Contract::farm_set(*old(self), *final(self), account@, farm@, amount),
            Contract::only_farms_differ(*old(self), *final(self)),
    {
        match self.farmers.find(account) {
            Some(i) => {
                let placeholder = FarmData { farms: AmountMap { owner: String::new(), len: 0 } };
                let mut fd = self.farmers.swap_value(i, placeholder);
                stored_insert(&mut self.farm_slots, &mut fd.farms, farm, amount);
                let _ = self.farmers.swap_value(i, fd);
            },
            None => {
                let mut farms = AmountMap { owner: account.clone(), len: 0 };
                stored_insert(&mut self.farm_slots, &mut farms, farm, amount);
                self.farmers.insert(account.clone(), FarmData { farms });
            },
        }
        assert(self.farmers@.remove(account@) =~= old(self).farmers@.remove(account@));
    }

    /// Credits `amount` of `token_id` to `account_id`, creating its record as needed.
    pub fn update_user_balance(&mut self, account_id: String, token_id: String, amount: u128)
        requires
            old(self).token_writes(account_id@, token_id@),
            old(self).balance_of(account_id@, token_id@) + amount <= u128::MAX,
        ensures
            Contract::token_set(
                *old(self),
                *final(self),
                account_id@,
                token_id@,
                (old(self).balance_of(account_id@, token_id@) + amount) as u128,
            ),
            Contract::only_balances_differ(*old(self), *final(self)),
            old(self).farmers_are_poolers() ==> final(self).farmers_are_poolers(),
    {
        let current = match self.token_amount(&account_id, &token_id) {
            Some(v) => v,
            None => 0,
        };
        self.set_token(&account_id, token_id, current + amount);
    }

    /// Debits `amount` of `token_id` from `account_id`; refused with
    /// `NotEnough` unless the account reads an entry for the token holding at
    /// least `amount`.
    pub fn withdraw_user_balance(&mut self, account_id: String, token_id: String, amount: u128) -> (r: Result<(), ContractError>)
        requires
            old(self).token_reads(account_id@, token_id@),
        ensures
            r is Ok <==> old(self).tokens_of(account_id@).contains_key(token_id@)
                && amount <= old(self).balance_of(account_id@, token_id@),
            r is Err ==> r == Err::<(), ContractError>(ContractError::NotEnough) && *final(self) == *old(self),
            r is Ok ==> Contract::token_set(
                *old(self),
                *final(self),
                account_id@,
                token_id@,
                (old(self).balance_of(account_id@, token_id@) - amount) as u128,
            ),
            r is Ok ==> Contract::only_balances_differ(*old(self), *final(self)),
            old(self).farmers_are_poolers() ==> final(self).farmers_are_poolers(),
    {
        match self.token_amount(&account_id, &token_id) {
            Some(current) => {
                if amount <= current {
                    self.set_token(&account_id, token_id, current - amount);
                    Ok(())
                } else {
                    Err(ContractError::NotEnough)
                }
            },
            None => Err(ContractError::NotEnough),
        }
    }

    /// Moves `amount` shares of `pool_id` from `account_id`'s pools to its
    /// farms (creating its farm record if needed); refused with
    /// `NotEnoughPool` unless the account holds at least `amount` shares of
    /// the pool. The pool amount is written through a copy of the account's
    /// pool record that is not stored back.
    pub fn transfer_pool_to_farm(&mut self, account_id: String, pool_id: String, amount: u128) -> (r: Result<(), ContractError>)
        requires
            old(self).poolers@.contains_key(account_id@) ==> old(self).pool_reads(account_id@, pool_id@),
            old(self).poolers@.contains_key(account_id@) && amount <= old(self).shares_of(account_id@, pool_id@) ==> {
                &&& old(self).pool_writes(account_id@, pool_id@)
                &&& old(self).farm_writes(account_id@, pool_id@)
                &&& old(self).farmed_of(account_id@, pool_id@) + amount <= u128::MAX
            },
        ensures
            r is Ok <==> old(self).poolers@.contains_key(account_id@)
                && amount <= old(self).shares_of(account_id@, pool_id@),
            r is Err ==> r == Err::<(), ContractError>(ContractError::NotEnoughPool) && *final(self) == *old(self),
            r is Ok ==> Contract::pool_set_through_copy(
                *old(self),
                *final(self),
                account_id@,
                pool_id@,
                (old(self).shares_of(account_id@, pool_id@) - amount) as u128,
            ),
            r is Ok ==> Contract::farm_set(
                *old(self),
                *final(self),
                account_id@,
                pool_id@,
                (old(self).farmed_of(account_id@, pool_id@) + amount) as u128,
            ),
            r is Ok ==> Contract::only_pools_and_farms_differ(*old(self), *final(self)),
            old(self).farmers_are_poolers() ==> final(self).farmers_are_poolers(),
    {
        let checked = self.assert_pool_balance(account_id.clone(), pool_id.clone(), amount);
        if checked.is_err() {
            return Err(ContractError::NotEnoughPool);
        }
        let shares = match self.pool_amount(&account_id, &pool_id) {
            Some(v) => v,
            None => 0,
        };
        let farmed = match self.farm_amount(&account_id, &pool_id) {
            Some(v) => v,
            None => 0,
        };
        let ghost before = *self;
        self.set_pool_through_copy(&account_id, pool_id.clone(), shares - amount);
        let ghost mid = *self;
        self.set_farm(&account_id, pool_id, farmed + amount);
        proof {
            if before.farmers_are_poolers() {
                assert forall|a: Seq<char>| #[trigger] self.farmers@.contains_key(a) implies self.poolers@.contains_key(a) by {
                    if a != account_id@ {
                        assert(self.farmers@.remove(account_id@).contains_key(a));
                        assert(before.farmers@.contains_key(a));
                    }
                }
            }
        }
        Ok(())
    }

    /// Writes `amount` under `pool` through a copy of `account`'s pool
    /// record, which is not stored back.
    fn set_pool_through_copy(&mut self, account: &String, pool: String, amount: u128)
        requires
            old(self).poolers@.contains_key(account@),
            old(self).pool_writes(account@, pool@),
        ensures
            Contract::pool_set_through_copy(*old(self), *final(self), account@, pool@, amount),
            Contract::only_pools_differ(*old(self), *final(self)),
    {
        let mut copy = match self.poolers.get(account) {
            Some(pd) => AmountMap { owner: pd.pools.owner.clone(), len: pd.pools.len },
            None => AmountMap { owner: String::new(), len: 0 },
        };
        stored_insert(&mut self.pool_slots, &mut copy, pool, amount);
    }

    /// Writes `amount` under `farm` through a copy of `account`'s farm
    /// record, which is not stored back.
    fn set_farm_through_copy(&mut self, account: &String, farm: String, amount: u128)
        requires
            old(self).farmers@.contains_key(account@),
            old(self).farm_writes(account@, farm@),
        ensures
            Contract::farm_set_through_copy(*old(self), *final(self), account@, farm@, amount),
            Contract::only_farms_differ(*old(self), *final(self)),
    {
        let mut copy = match self.farmers.get(account) {
            Some(fd) => AmountMap { owner: fd.farms.owner.clone(), len: fd.farms.len },
            None => AmountMap { owner: String::new(), len: 0 },
        };
        stored_insert(&mut self.farm_slots, &mut copy, farm, amount);
    }

    /// Moves `amount` of `farm_id` from `account_id`'s farms back to its
    /// pools; refused with `NotEnoughFarm` unless the account farms at least
    /// `amount` of it. The farm amount is written through a copy of the
    /// account's farm record that is not stored back.
    pub fn transfer_farm_to_pool(&mut self, account_id: String, farm_id: String, amount: u128) -> (r: Result<(), ContractError>)
        requires
            old(self).farmers@.contains_key(account_id@) ==> old(self).farm_reads(account_id@, farm_id@),
            old(self).farmers@.contains_key(account_id@) && amount <= old(self).farmed_of(account_id@, farm_id@) ==> {
                &&& old(self).farm_writes(account_id@, farm_id@)
                &&& old(self).poolers@.contains_key(account_id@)
                &&& old(self).pool_writes(account_id@, farm_id@)
                &&& old(self).shares_of(account_id@, farm_id@) + amount <= u128::MAX
            },
        ensures
            r is Ok <==> old(self).farmers@.contains_key(account_id@)
                && amount <= old(self).farmed_of(account_id@, farm_id@),
            r is Err ==> r == Err::<(), ContractError>(ContractError::NotEnoughFarm) && *final(self) == *old(self),
            r is Ok ==> Contract::farm_set_through_copy(
                *old(self),
                *final(self),
                account_id@,
                farm_id@,
                (old(self).farmed_of(account_id@, farm_id@) - amount) as u128,
            ),
            r is Ok ==> Contract::pool_set(
                *old(self),
                *final(self),
                account_id@,
                farm_id@,
                (old(self).shares_of(account_id@, farm_id@) + amount) as u128,
            ),
            r is Ok ==> Contract::only_pools_and_farms_differ(*old(self), *final(self)),
            old(self).farmers_are_poolers() ==> final(self).farmers_are_poolers(),
    {
        let checked = self.assert_farm_balance(account_id.clone(), farm_id.clone(), amount);
        if checked.is_err() {
            return Err(ContractError::NotEnoughFarm);
        }
        let farmed = match self.farm_amount(&account_id, &farm_id) {
            Some(v) => v,
            None => 0,
        };
        let shares = match self.pool_amount(&account_id, &farm_id) {
            Some(v) => v,
            None => 0,
        };
        let ghost before = *self;
        self.set_farm_through_copy(&account_id, farm_id.clone(), farmed - amount);
        self.set_pool(&account_id, farm_id, shares + amount);
        proof {
            if before.farmers_are_poolers() {
                assert forall|a: Seq<char>| #[trigger] self.farmers@.contains_key(a) implies self.poolers@.contains_key(a) by {
                    if a != account_id@ {
                        assert(before.poolers@.contains_key(a));
                        assert(before.poolers@.remove(account_id@).contains_key(a));
                    }
                }
            }
        }
        Ok(())
    }

    /// Refused with `NotEnoughPool` unless `account_id` holds at least `amount`
    /// shares of `pool_id`.
    pub fn assert_pool_balance(&self, account_id: String, pool_id: String, amount: u128) -> (r: Result<(), ContractError>)
        requires
            self.poolers@.contains_key(account_id@) ==> self.pool_reads(account_id@, pool_id@),
        ensures
            r is Ok <==> self.poolers@.contains_key(account_id@) && amount <= self.shares_of(account_id@, pool_id@),
            r is Err ==> r == Err::<(), ContractError>(ContractError::NotEnoughPool),
    {
        match self.poolers.get(&account_id) {
            Some(pd) => {
                let shares = match stored_get(&self.pool_slots, &pd.pools, &pool_id) {
                    Some(v) => v,
                    None => 0,
                };
                if shares >= amount {
                    Ok(())
                } else {
                    Err(ContractError::NotEnoughPool)
                }
            },
            None => Err(ContractError::NotEnoughPool),
        }
    }

    /// Refused with `NotEnoughFarm` unless `account_id` farms at least
    /// `amount` of `farm_id`.
    pub fn assert_farm_balance(&self, account_id: String, farm_id: String, amount: u128) -> (r: Result<(), ContractError>)
        requires
            self.farmers@.contains_key(account_id@) ==> self.farm_reads(account_id@, farm_id@),
        ensures
            r is Ok <==> self.farmers@.contains_key(account_id@) && amount <= self.farmed_of(account_id@, farm_id@),
            r is Err ==> r == Err::<(), ContractError>(ContractError::NotEnoughFarm),
    {
        match self.farmers.get(&account_id) {
            Some(fd) => {
                let farmed = match stored_get(&self.farm_slots, &fd.farms, &farm_id) {
                    Some(v) => v,
                    None => 0,
                };
                if farmed >= amount {
                    Ok(())
                } else {
                    Err(ContractError::NotEnoughFarm)
                }
            },
            None => Err(ContractError::NotEnoughFarm),
        }
    }

    /// The pool ID named by a pool token ID such as `:17`; refused with
    /// `IllegalTokenId` unless the string starts with `:`.
    pub fn parse_pool_id(&self, pool_id_str: String) -> (r: Result<String, ContractError>)
        ensures
            match token_pool_id(pool_id_str@) {
                Some(id) => r is Ok && r->Ok_0@ == id,
                None => r == Err::<String, ContractError>(ContractError::IllegalTokenId),
            },
    {
        let s = pool_id_str.as_str();
        let n = s.unicode_len();
        if n > 0 && s.get_char(0) == ':' {
            let rest = s.substring_char(1, n);
            assert(rest@ =~= pool_id_str@.drop_first());
            Ok(rest.to_owned())
        } else {
            Err(ContractError::IllegalTokenId)
        }
    }

    /// The pool ID named by a seed ID such as `ref-finance-101.testnet@17`;
    /// refused with `IllegalSeedId` unless the string holds exactly one `@`
    /// with at least one character after it.
    pub fn parse_pool_id_from_seed_id(&self, seed_id: String) -> (r: Result<String, ContractError>)
        ensures
            match seed_pool_id(seed_id@) {
                Some(id) => r is Ok && r->Ok_0@ == id,
                None => r == Err::<String, ContractError>(ContractError::IllegalSeedId),
            },
    {
        let s = seed_id.as_str();
        let n = s.unicode_len();
        let mut found: Option<usize> = None;
        let mut i: usize = 0;
        while i < n
            invariant
                n == s@.len(),
                s@ == seed_id@,
                i <= n,
                found matches Some(p) ==> p < i && s@[p as int] == '@' && (forall|j: int|
                    0 <= j < i && #[trigger] s@[j] == '@' ==> j == p),
                found is None ==> forall|j: int| 0 <= j < i ==> #[trigger] s@[j] != '@',
            decreases n - i,
        {
            if s.get_char(i) == '@' {
                if let Some(p) = found {
                    assert(seed_pool_id(seed_id@) is None) by {
                        if exists|k: int| sole_separator(seed_id@, k) && k + 1 < seed_id@.len() {
                            let k = choose|k: int| sole_separator(seed_id@, k) && k + 1 < seed_id@.len();
                            assert(seed_id@[p as int] == '@');
                            assert(seed_id@[i as int] == '@');
                        }
                    }
                    return Err(ContractError::IllegalSeedId);
                }
                found = Some(i);
            }
            i = i + 1;
        }
        match found {
            Some(p) => {
                assert(sole_separator(seed_id@, p as int));
                if p + 1 < n {
                    let rest = s.substring_char(p + 1, n);
                    proof {
                        let k = choose|k: int| sole_separator(seed_id@, k) && k + 1 < seed_id@.len();
                        assert(seed_id@[k] == '@');
                        assert(k == p);
                    }
                    Ok(rest.to_owned())
                } else {
                    assert(seed_pool_id(seed_id@) is None) by {
                        if exists|k: int| sole_separator(seed_id@, k) && k + 1 < seed_id@.len() {
                            let k = choose|k: int| sole_separator(seed_id@, k) && k + 1 < seed_id@.len();
                            assert(seed_id@[k] == '@');
                        }
                    }
                    Err(ContractError::IllegalSeedId)
                }
            },
            None => {
                assert(seed_pool_id(seed_id@) is None) by {
                    if exists|k: int| sole_separator(seed_id@, k) && k + 1 < seed_id@.len() {
                        let k = choose|k: int| sole_separator(seed_id@, k) && k + 1 < seed_id@.len();
                        assert(seed_id@[k] == '@');
                    }
                }
                Err(ContractError::IllegalSeedId)
            },
        }
    }
}

} // verus!
