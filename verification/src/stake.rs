use vstd::prelude::*;
use crate::errors::ContractError;
use crate::text::{account_id_rules, is_valid_account_id, joined, replace_all, replace_text};
use crate::utils::{STAKE_SUFFIX, STORAGE_COST};
use crate::Contract;

verus! {

/// A stake-list entry: its key and the yoctoNEAR staked under it.
pub struct Stake {
    pub key: String,
    pub amount: u128,
}

/// What an unstake answers: the amount it reports, and the yoctoNEAR to send
/// back to the staker, if any.
#[derive(Debug, Clone, Copy, PartialEq, Eq, Structural)]
pub struct Unstaked {
    pub amount: u128,
    pub refund: Option<u128>,
}

/// The suffix of stake-list keys.
pub open spec fn near_suffix() -> Seq<char> {
    seq!['_', 'n', 'e', 'a', 'r']
}

/// The stake-list key of `account`.
pub open spec fn stake_key(account: Seq<char>) -> Seq<char> {
    account + near_suffix()
}

/// The account that a stake listing reads back from the key `key`: the key
/// with every `_near` taken out.
pub open spec fn listed_account(key: Seq<char>) -> Seq<char> {
    replace_all(key, near_suffix(), Seq::empty())
}

/// Where a stake listing starts.
pub open spec fn window_start(from_index: Option<u128>) -> int {
    (match from_index {
        Some(v) => v,
        None => 0,
    }) as usize as int
}

/// How many entries a stake listing takes at most.
pub open spec fn window_limit(limit: Option<u64>) -> int {
    (match limit {
        Some(v) => v,
        None => 50,
    }) as usize as int
}

/// How many entries a stake listing over `n` keys returns.
pub open spec fn window_len(n: int, from_index: Option<u128>, limit: Option<u64>) -> int {
    let start = window_start(from_index);
    let lim = window_limit(limit);
    if start >= n {
        0
    } else if n - start < lim {
        n - start
    } else {
        lim
    }
}

/// What staking `deposit` adds for a staker whose stake is `current`: a
/// staker with nothing staked first pays `STORAGE_COST`, and is refused
/// (`None`) unless the deposit exceeds it.
pub open spec fn stake_answer(current: u128, deposit: u128) -> Option<u128> {
    if current == 0 {
        if deposit <= STORAGE_COST {
            None
        } else {
            Some((deposit - STORAGE_COST) as u128)
        }
    } else {
        Some(deposit)
    }
}

/// What unstaking `request` answers for a staker whose stake is `current`
/// (`None` for a refusal): nothing staked answers 0 and refunds nothing;
/// `Some(x)` refunds `x` if it is covered; `None` refunds everything.
pub open spec fn unstake_answer(current: u128, request: Option<u128>) -> Option<Unstaked> {
    if current == 0 {
        Some(Unstaked { amount: 0, refund: None })
    } else {
        match request {
            Some(x) => if x <= current {
                Some(Unstaked { amount: x, refund: Some(x) })
            } else {
                None
            },
            None => Some(Unstaked { amount: current, refund: Some(current) }),
        }
    }
}

impl Contract {
    /// The stake-list key of `account`.
    fn stake_key_of(account: &String) -> (k: String)
        ensures
            k@ == stake_key(account@),
    {
        let k = joined(account.as_str(), STAKE_SUFFIX);
        proof {
            reveal_strlit("_near");
        }
        assert(STAKE_SUFFIX@ =~= near_suffix());
        k
    }

    /// Stakes the attached deposit for `staker`. A staker with nothing staked
    /// pays `STORAGE_COST` out of the deposit first, and is refused with
    /// `StakeBelowStorageCost` unless the deposit exceeds it. Answers the
    /// amount added to the stake.
    pub fn stake(&mut self, staker: String, attached_deposit: u128) -> (r: Result<u128, ContractError>)
        requires
            old(self).stake_of(stake_key(staker@)) != 0 ==> old(self).stake_of(stake_key(staker@))
                + attached_deposit <= u128::MAX,
        ensures
            match stake_answer(old(self).stake_of(stake_key(staker@)), attached_deposit) {
                None => r == Err::<u128, ContractError>(ContractError::StakeBelowStorageCost)
                    && *final(self) == *old(self),
                Some(s) => {
                    &&& r == Ok::<u128, ContractError>(s)
                    &&& final(self).stake_list@ == old(self).stake_list@.insert(
                        stake_key(staker@),
                        (old(self).stake_of(stake_key(staker@)) + s) as u128,
                    )
                    &&& final(self).stake_list.keys() == old(self).stake_list.keys_after_insert(
                        stake_key(staker@),
                    )
                    &&& Contract::only_stakes_differ(*old(self), *final(self))
                },
            },
            old(self).farmers_are_poolers() ==> final(self).farmers_are_poolers(),
    {
        let key = Self::stake_key_of(&staker);
        let amount = match self.stake_list.get(&key) {
            Some(v) => *v,
            None => 0,
        };
        let mut stake_amount = attached_deposit;
        if amount == 0 {
            if attached_deposit <= STORAGE_COST {
                return Err(ContractError::StakeBelowStorageCost);
            }
            stake_amount = attached_deposit - STORAGE_COST;
        }
        self.stake_list.insert(key, amount + stake_amount);
        Ok(stake_amount)
    }

    /// Unstakes for `staker`: `Some(x)` takes out `x` (refused with
    /// `NotEnough` if more than is staked), `None` takes out everything.
    /// Nothing staked answers 0 and sends nothing.
    pub fn unstake(&mut self, staker: String, unstake_amount: Option<u128>) -> (r: Result<Unstaked, ContractError>)
        ensures
            match unstake_answer(old(self).stake_of(stake_key(staker@)), unstake_amount) {
                None => r == Err::<Unstaked, ContractError>(ContractError::NotEnough) && *final(self) == *old(self),
                Some(answer) => {
                    &&& r == Ok::<Unstaked, ContractError>(answer)
                    &&& if answer.refund is Some {
                        &&& final(self).stake_list@ == old(self).stake_list@.insert(
                            stake_key(staker@),
                            (old(self).stake_of(stake_key(staker@)) - answer.amount) as u128,
                        )
                        &&& final(self).stake_list.keys() == old(self).stake_list.keys()
                        &&& Contract::only_stakes_differ(*old(self), *final(self))
                    } else {
                        *final(self) == *old(self)
                    }
                },
            },
            old(self).farmers_are_poolers() ==> final(self).farmers_are_poolers(),
    {
        let key = Self::stake_key_of(&staker);
        let amount = match self.stake_list.get(&key) {
            Some(v) => *v,
            None => 0,
        };
        if amount != 0 {
            match unstake_amount {
                Some(x) => {
                    if amount >= x {
                        self.stake_list.insert(key, amount - x);
                        return Ok(Unstaked { amount: x, refund: Some(x) });
                    } else {
                        return Err(ContractError::NotEnough);
                    }
                },
                None => {
                    self.stake_list.insert(key, 0);
                    return Ok(Unstaked { amount, refund: Some(amount) });
                },
            }
        }
        Ok(Unstaked { amount: 0, refund: None })
    }

    /// The stake-list entry of `account_id` (0 where it has none).
    pub fn get_stake_for_account(&self, account_id: String) -> (s: Stake)
        ensures
            s.key@ == stake_key(account_id@),
            s.amount == self.stake_of(stake_key(account_id@)),
    {
        let key = Self::stake_key_of(&account_id);
        let amount = match self.stake_list.get(&key) {
            Some(v) => *v,
            None => 0,
        };
        Stake { key, amount }
    }

    /// Lists stakes for the owner: from position `from_index` (default 0) of
    /// the stake list, at most `limit` (default 50) entries, each read back
    /// as the stake of the account its key names. Refused with `NotAllowed`
    /// unless the caller is the owner, and with `InvalidAccountId` if a
    /// listed key does not name a valid account.
    pub fn get_stakes(&self, predecessor_id: String, from_index: Option<u128>, limit: Option<u64>) -> (r: Result<Vec<Stake>, ContractError>)
        ensures
            predecessor_id@ != self.owner_id@ ==> r == Err::<Vec<Stake>, ContractError>(ContractError::NotAllowed),
            predecessor_id@ == self.owner_id@ ==> (r is Ok <==> forall|i: int|
                0 <= i < window_len(self.stake_list.keys().len() as int, from_index, limit)
                    ==> account_id_rules(
                    listed_account(#[trigger] self.stake_list.keys()[window_start(from_index) + i]),
                )),
            r matches Err(e) ==> e == ContractError::NotAllowed || e == ContractError::InvalidAccountId,
            r matches Ok(v) ==> {
                &&& v@.len() == window_len(self.stake_list.keys().len() as int, from_index, limit)
                &&& forall|i: int| 0 <= i < v@.len() ==> {
                    let account = listed_account(self.stake_list.keys()[window_start(from_index) + i]);
                    &&& (#[trigger] v@[i]).key@ == stake_key(account)
                    &&& v@[i].amount == self.stake_of(stake_key(account))
                }
            },
    {
        if let Err(e) = self.assert_owner(&predecessor_id) {
            return Err(e);
        }
        let from = match from_index {
            Some(v) => v,
            None => 0,
        };
        let start = #[verifier::truncate] (from as usize);
        let lim_u64 = match limit {
            Some(v) => v,
            None => 50,
        };
        let lim = #[verifier::truncate] (lim_u64 as usize);
        let n = self.stake_list.len();
        let count = if start >= n {
            0
        } else if n - start < lim {
            n - start
        } else {
            lim
        };
        assert(count == window_len(n as int, from_index, limit));
        proof {
            reveal_strlit("_near");
            reveal_strlit("");
        }
        assert(STAKE_SUFFIX@ =~= near_suffix());
        assert(""@ =~= Seq::<char>::empty());
        let mut out: Vec<Stake> = Vec::new();
        let mut j: usize = 0;
        while j < count
            invariant
                n == self.stake_list.keys().len(),
                predecessor_id@ == self.owner_id@,
                count == window_len(n as int, from_index, limit),
                start == window_start(from_index),
                count > 0 ==> start + count <= n,
                j <= count,
                out@.len() == j,
                STAKE_SUFFIX@ == near_suffix(),
                ""@ == Seq::<char>::empty(),
                forall|i: int| 0 <= i < j ==> account_id_rules(
                    listed_account(#[trigger] self.stake_list.keys()[window_start(from_index) + i]),
                ),
                forall|i: int| 0 <= i < j ==> {
                    let account = listed_account(self.stake_list.keys()[window_start(from_index) + i]);
                    &&& (#[trigger] out@[i]).key@ == stake_key(account)
                    &&& out@[i].amount == self.stake_of(stake_key(account))
                },
            decreases count - j,
        {
            let key = self.stake_list.key_at(start + j);
            let account = replace_text(key.as_str(), STAKE_SUFFIX, "");
            if !is_valid_account_id(account.as_str()) {
                return Err(ContractError::InvalidAccountId);
            }
            let entry = self.get_stake_for_account(account);
            out.push(entry);
            j = j + 1;
        }
        Ok(out)
    }
}

} // verus!
