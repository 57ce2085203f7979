use vstd::prelude::*;
use crate::errors::ContractError;
use crate::text::{decimal_string, decimal_text};
use crate::ordered_map::OrderedMap;
use crate::storage::{fits, listed, slots_at, AmountMap, Slots};
use crate::Contract;

verus! {

/// One row of a pool listing: a pool ID and the shares held, in decimal.
pub struct PoolDTO {
    pub pool_id: String,
    pub amount: String,
}

/// One row of a farm listing: a farm ID and the amount farmed, in decimal.
pub struct FarmDTO {
    pub farm_id: String,
    pub amount: String,
}

/// Every position `m`'s listing reads is stored.
pub open spec fn map_fits(store: Map<Seq<char>, Slots>, m: Option<AmountMap>) -> bool {
    match m {
        Some(h) => fits(slots_at(store, h.owner@), h.len as nat),
        None => true,
    }
}

/// The rows of the listing of `m` over `store`: each key with its value in decimal.
pub fn amount_rows(store: &OrderedMap<Slots>, m: &AmountMap) -> (r: Vec<(String, String)>)
    requires
        fits(slots_at(store@, m.owner@), m.len as nat),
    ensures
        r@.len() == listed(slots_at(store@, m.owner@), m.len as nat).len(),
        forall|i: int| 0 <= i < r@.len() ==> {
            let row = listed(slots_at(store@, m.owner@), m.len as nat)[i];
            &&& (#[trigger] r@[i]).0@ == row.0
            &&& r@[i].1@ == decimal_text(row.1 as nat)
        },
{
    let mut rows: Vec<(String, String)> = Vec::new();
    match store.get(&m.owner) {
        Some(slots) => {
            let ghost s = slots_at(store@, m.owner@);
            let cl = slots.cells.len();
            assert(m.len <= cl);
            let n = m.len as usize;
            let mut i: usize = 0;
            while i < n
                invariant
                    s == slots@,
                    n == m.len,
                    n <= slots.cells@.len(),
                    i <= n,
                    rows@.len() == i,
                    forall|j: int| 0 <= j < i ==> {
                        let row = listed(s, n as nat)[j];
                        &&& (#[trigger] rows@[j]).0@ == row.0
                        &&& rows@[j].1@ == decimal_text(row.1 as nat)
                    },
                decreases n - i,
            {
                let key = slots.cells[i].0.clone();
                let amount = decimal_string(slots.cells[i].1);
                rows.push((key, amount));
                i = i + 1;
            }
        },
        None => {},
    }
    rows
}

impl Contract {
    /// `account_id`'s pool shares as its record lists them.
    pub fn get_pools(&self, account_id: String) -> (r: Vec<PoolDTO>)
        requires
            map_fits(self.pool_slots@, self.pool_map(account_id@)),
        ensures
            r@.len() == self.pool_listing(account_id@).len(),
            forall|i: int| 0 <= i < r@.len() ==> {
                let row = self.pool_listing(account_id@)[i];
                &&& (#[trigger] r@[i]).pool_id@ == row.0
                &&& r@[i].amount@ == decimal_text(row.1 as nat)
            },
    {
        let mut pools: Vec<PoolDTO> = Vec::new();
        if let Some(pool_data) = self.poolers.get(&account_id) {
            let rows = amount_rows(&self.pool_slots, &pool_data.pools);
            let n = rows.len();
            let mut i: usize = 0;
            while i < n
                invariant
                    n == rows@.len(),
                    i <= n,
                    pools@.len() == i,
                    forall|j: int| 0 <= j < i ==> {
                        &&& (#[trigger] pools@[j]).pool_id@ == rows@[j].0@
                        &&& pools@[j].amount@ == rows@[j].1@
                    },
                decreases n - i,
            {
                pools.push(PoolDTO { pool_id: rows[i].0.clone(), amount: rows[i].1.clone() });
                i = i + 1;
            }
        }
        pools
    }

    /// `account_id`'s farms as its record lists them.
    pub fn get_farms(&self, account_id: String) -> (r: Vec<FarmDTO>)
        requires
            map_fits(self.farm_slots@, self.farm_map(account_id@)),
        ensures
            r@.len() == self.farm_listing(account_id@).len(),
            forall|i: int| 0 <= i < r@.len() ==> {
                let row = self.farm_listing(account_id@)[i];
                &&& (#[trigger] r@[i]).farm_id@ == row.0
                &&& r@[i].amount@ == decimal_text(row.1 as nat)
            },
    {
        let mut farms: Vec<FarmDTO> = Vec::new();
        if let Some(farm_data) = self.farmers.get(&account_id) {
            let rows = amount_rows(&self.farm_slots, &farm_data.farms);
            let n = rows.len();
            let mut i: usize = 0;
            while i < n
                invariant
                    n == rows@.len(),
                    i <= n,
                    farms@.len() == i,
                    forall|j: int| 0 <= j < i ==> {
                        &&& (#[trigger] farms@[j]).farm_id@ == rows@[j].0@
                        &&& farms@[j].amount@ == rows@[j].1@
                    },
                decreases n - i,
            {
                farms.push(FarmDTO { farm_id: rows[i].0.clone(), amount: rows[i].1.clone() });
                i = i + 1;
            }
        }
        farms
    }

    /// Sets `account_id`'s shares of `pool_id` to `shares`, for the owner.
    /// Answers `shares`, or 0 and changes nothing if the account has no pool
    /// record. Refused with `NotAllowed` unless the caller is the owner.
    pub fn modify_pool(&mut self, predecessor_id: String, account_id: String, pool_id: String, shares: u128) -> (r: Result<u128, ContractError>)
        requires
            predecessor_id@ == old(self).owner_id@ && old(self).poolers@.contains_key(account_id@)
                ==> old(self).pool_writes(account_id@, pool_id@),
        ensures
            predecessor_id@ != old(self).owner_id@ ==> r == Err::<u128, ContractError>(ContractError::NotAllowed)
                && *final(self) == *old(self),
            predecessor_id@ == old(self).owner_id@ && !old(self).poolers@.contains_key(account_id@)
                ==> r == Ok::<u128, ContractError>(0) && *final(self) == *old(self),
            predecessor_id@ == old(self).owner_id@ && old(self).poolers@.contains_key(account_id@) ==> {
                &&& r == Ok::<u128, ContractError>(shares)
                &&& Contract::pool_set(*old(self), *final(self), account_id@, pool_id@, shares)
                &&& Contract::only_pools_differ(*old(self), *final(self))
            },
            old(self).farmers_are_poolers() ==> final(self).farmers_are_poolers(),
    {
        if let Err(e) = self.assert_owner(&predecessor_id) {
            return Err(e);
        }
        if self.poolers.find(&account_id).is_some() {
            self.set_pool(&account_id, pool_id, shares);
            assert forall|a: Seq<char>| #[trigger] old(self).poolers@.contains_key(a) implies self.poolers@.contains_key(a) by {
                if a != account_id@ {
                    assert(old(self).poolers@.remove(account_id@).contains_key(a));
                }
            }
            Ok(shares)
        } else {
            Ok(0)
        }
    }

    /// Sets the amount `account_id` farms in `farm_id` to `amount`, for the
    /// owner. Answers `amount`, or 0 and changes nothing if the account has
    /// no farm record. Refused with `NotAllowed` unless the caller is the owner.
    pub fn modify_farm(&mut self, predecessor_id: String, account_id: String, farm_id: String, amount: u128) -> (r: Result<u128, ContractError>)
        requires
            predecessor_id@ == old(self).owner_id@ && old(self).farmers@.contains_key(account_id@)
                ==> old(self).farm_writes(account_id@, farm_id@),
        ensures
            predecessor_id@ != old(self).owner_id@ ==> r == Err::<u128, ContractError>(ContractError::NotAllowed)
                && *final(self) == *old(self),
            predecessor_id@ == old(self).owner_id@ && !old(self).farmers@.contains_key(account_id@)
                ==> r == Ok::<u128, ContractError>(0) && *final(self) == *old(self),
            predecessor_id@ == old(self).owner_id@ && old(self).farmers@.contains_key(account_id@) ==> {
                &&& r == Ok::<u128, ContractError>(amount)
                &&& Contract::farm_set(*old(self), *final(self), account_id@, farm_id@, amount)
                &&& Contract::only_farms_differ(*old(self), *final(self))
            },
            old(self).farmers_are_poolers() ==> final(self).farmers_are_poolers(),
    {
        if let Err(e) = self.assert_owner(&predecessor_id) {
            return Err(e);
        }
        if self.farmers.find(&account_id).is_some() {
            self.set_farm(&account_id, farm_id, amount);
            assert forall|a: Seq<char>| #[trigger] self.farmers@.contains_key(a) implies old(self).farmers@.contains_key(a) by {
                if a != account_id@ {
                    assert(self.farmers@.remove(account_id@).contains_key(a));
                }
            }
            Ok(amount)
        } else {
            Ok(0)
        }
    }

    /// The shares of `pool_id` that `account_id` reads as held (0 where it has none).
    pub fn get_pool(&self, pool_id: String, account_id: String) -> (r: u128)
        requires
            self.pool_reads(account_id@, pool_id@),
        ensures
            r == self.shares_of(account_id@, pool_id@),
    {
        match self.pool_amount(&account_id, &pool_id) {
            Some(v) => v,
            None => 0,
        }
    }
}

} // verus!
