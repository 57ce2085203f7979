use vstd::prelude::*;
use crate::calls::{calls_view, Call, CallView, CrossCall, CrossCallView, Outcome, Receiver, ReceiverView};
use crate::errors::ContractError;
use crate::utils::{
    DEPOSIT_YOCTO, FT_CALL_35_TGAS, FT_CALL_45_TGAS, FT_CALL_60_TGAS, REF_CONTRACT, REF_FARM_CONTRACT, STORAGE_COST,
};
use crate::internals::{seed_pool_id, token_pool_id};
use crate::text::{account_id_rules, decimal_string, decimal_text, is_valid_account_id, parse_unsigned, unsigned_value};
use crate::ordered_map::OrderedMap;
use crate::storage::{
    len_after, slots_at, slots_writable, stored_get, stored_insert, visible, writable, written, AmountMap, Slots, SlotsView,
};
use crate::{amount_or_zero, Contract, UserBalance};

verus! {

/// `account` can pay `a0` of `t1` and `a1` of `t2` out of its balances.
pub open spec fn can_pay(c: Contract, account: Seq<char>, t1: Seq<char>, t2: Seq<char>, a0: u128, a1: u128) -> bool {
    &&& c.user_balance@.contains_key(account)
    &&& a0 <= c.balance_of(account, t1)
    &&& a1 <= c.balance_of(account, t2)
}

/// `account`'s token storage after paying `a0` of `t1` and then `a1` of
/// `t2` through a copy of its record counting `n`.
pub open spec fn paid_slots(s: SlotsView, n: nat, t1: Seq<char>, t2: Seq<char>, a0: u128, a1: u128) -> SlotsView {
    let s1 = written(s, n, t1, (amount_or_zero(visible(s, n), t1) - a0) as u128);
    let n1 = len_after(s, n, t1);
    written(s1, n1, t2, (amount_or_zero(visible(s1, n1), t2) - a1) as u128)
}

/// The count of that copy after both payments.
pub open spec fn paid_len(s: SlotsView, n: nat, t1: Seq<char>, t2: Seq<char>, a0: u128) -> nat {
    let s1 = written(s, n, t1, (amount_or_zero(visible(s, n), t1) - a0) as u128);
    len_after(s1, len_after(s, n, t1), t2)
}

/// Paying `a0` of `t1` and then `a1` of `t2` through a copy of `account`'s
/// record does not stop the call.
pub open spec fn payment_runs(c: Contract, account: Seq<char>, t1: Seq<char>, t2: Seq<char>, a0: u128, a1: u128) -> bool {
    let h = c.user_balance@[account].tokens;
    let s = slots_at(c.token_slots@, h.owner@);
    let n = h.len as nat;
    let s1 = written(s, n, t1, (amount_or_zero(visible(s, n), t1) - a0) as u128);
    let n1 = len_after(s, n, t1);
    &&& writable(s, n, t1)
    &&& writable(s1, n1, t2)
    &&& a1 <= amount_or_zero(visible(s1, n1), t2)
}

/// `new` is `old` after `account` paid `a0` of `t1` and `a1` of `t2` for
/// liquidity through a copy of its record, and the copy was stored as
/// `predecessor`'s record: both records then share the account's storage.
pub open spec fn liquidity_paid(
    old: Contract,
    new: Contract,
    account: Seq<char>,
    predecessor: Seq<char>,
    t1: Seq<char>,
    t2: Seq<char>,
    a0: u128,
    a1: u128,
) -> bool {
    let h = old.user_balance@[account].tokens;
    let s = slots_at(old.token_slots@, h.owner@);
    let n = h.len as nat;
    &&& slots_at(new.token_slots@, h.owner@) == paid_slots(s, n, t1, t2, a0, a1)
    &&& new.token_slots@.remove(h.owner@) == old.token_slots@.remove(h.owner@)
    &&& new.user_balance@.contains_key(predecessor)
    &&& new.user_balance@.remove(predecessor) == old.user_balance@.remove(predecessor)
    &&& new.user_balance.keys() == old.user_balance.keys_after_insert(predecessor)
    &&& new.user_balance@[predecessor].tokens.owner == h.owner
    &&& new.user_balance@[predecessor].tokens.len == paid_len(s, n, t1, t2, a0)
}

/// The calls that add liquidity for `account`: both tokens go to the
/// exchange, the exchange puts them into pool `pool_id`, and this contract
/// hears back, one after the other.
pub open spec fn add_liquidity_calls(
    account: Seq<char>,
    pool_id: u64,
    amounts: Seq<u128>,
    token1: Seq<char>,
    token2: Seq<char>,
) -> Seq<Seq<CrossCallView>> {
    seq![
        seq![
            CrossCallView {
                receiver: ReceiverView::Account(token1),
                call: CallView::FtTransferCall { receiver_id: REF_CONTRACT@, amount: amounts[0], msg: ""@ },
                deposit: DEPOSIT_YOCTO,
                gas: Some(FT_CALL_35_TGAS),
            },
            CrossCallView {
                receiver: ReceiverView::Account(token2),
                call: CallView::FtTransferCall { receiver_id: REF_CONTRACT@, amount: amounts[1], msg: ""@ },
                deposit: DEPOSIT_YOCTO,
                gas: Some(FT_CALL_35_TGAS),
            },
            CrossCallView {
                receiver: ReceiverView::Account(REF_CONTRACT@),
                call: CallView::AddLiquidity { pool_id, amounts },
                deposit: STORAGE_COST,
                gas: None,
            },
            CrossCallView {
                receiver: ReceiverView::CurrentAccount,
                call: CallView::AddLiquidityCallback {
                    account_id: account,
                    pool_id: decimal_text(pool_id as nat),
                    amounts,
                    token1,
                    token2,
                },
                deposit: 0,
                gas: None,
            },
        ],
    ]
}

/// The calls that remove liquidity for `account`, side by side: the removal
/// from the pool, and the withdrawal of each token from the exchange, each
/// followed by this contract hearing back.
pub open spec fn remove_liquidity_calls(
    account: Seq<char>,
    min_amounts: Seq<u128>,
    pool_id: u64,
    shares: u128,
    token1: Seq<char>,
    token2: Seq<char>,
) -> Seq<Seq<CrossCallView>> {
    seq![
        seq![
            CrossCallView {
                receiver: ReceiverView::Account(REF_CONTRACT@),
                call: CallView::RemoveLiquidity { min_amounts, pool_id, shares },
                deposit: DEPOSIT_YOCTO,
                gas: None,
            },
            CrossCallView {
                receiver: ReceiverView::CurrentAccount,
                call: CallView::RemoveLiquidityCallback {
                    account_id: account,
                    pool_id: decimal_text(pool_id as nat),
                    shares,
                },
                deposit: 0,
                gas: None,
            },
        ],
        seq![
            CrossCallView {
                receiver: ReceiverView::Account(REF_CONTRACT@),
                call: CallView::Withdraw { token_id: token1, amount: 0, unregister: false },
                deposit: DEPOSIT_YOCTO,
                gas: Some(FT_CALL_60_TGAS),
            },
            CrossCallView {
                receiver: ReceiverView::CurrentAccount,
                call: CallView::WithdrawCallback { account_id: account, token_id: token1 },
                deposit: 0,
                gas: None,
            },
        ],
        seq![
            CrossCallView {
                receiver: ReceiverView::Account(REF_CONTRACT@),
                call: CallView::Withdraw { token_id: token2, amount: 0, unregister: false },
                deposit: DEPOSIT_YOCTO,
                gas: Some(FT_CALL_60_TGAS),
            },
            CrossCallView {
                receiver: ReceiverView::CurrentAccount,
                call: CallView::WithdrawCallback { account_id: account, token_id: token2 },
                deposit: 0,
                gas: None,
            },
        ],
    ]
}

/// The calls that move `amount` shares of the pool token `token_id` (pool
/// `pool`) from the exchange to the farm for `account`, and let this
/// contract hear back.
pub open spec fn farm_transfer_calls(account: Seq<char>, amount: u128, token_id: Seq<char>, pool: Seq<char>) -> Seq<Seq<CrossCallView>> {
    seq![
        seq![
            CrossCallView {
                receiver: ReceiverView::Account(REF_CONTRACT@),
                call: CallView::MftTransferCall {
                    amount,
                    msg: "\"Free\""@,
                    receiver_id: REF_FARM_CONTRACT@,
                    token_id,
                },
                deposit: DEPOSIT_YOCTO,
                gas: Some(FT_CALL_60_TGAS),
            },
            CrossCallView {
                receiver: ReceiverView::CurrentAccount,
                call: CallView::MftTransferCallback { amount, pool_id: pool, account_id: account },
                deposit: 0,
                gas: None,
            },
        ],
    ]
}

/// The call that asks the farm to hand over the rewards of `seed_id`.
pub open spec fn claim_reward_calls(seed_id: Seq<char>) -> Seq<Seq<CrossCallView>> {
    seq![
        seq![
            CrossCallView {
                receiver: ReceiverView::Account(REF_FARM_CONTRACT@),
                call: CallView::ClaimRewardBySeed { seed_id },
                deposit: 0,
                gas: Some(FT_CALL_35_TGAS),
            },
        ],
    ]
}

/// The call that asks the farm to send the rewards in `token_id`.
pub open spec fn withdraw_reward_calls(token_id: Seq<char>) -> Seq<Seq<CrossCallView>> {
    seq![
        seq![
            CrossCallView {
                receiver: ReceiverView::Account(REF_FARM_CONTRACT@),
                call: CallView::WithdrawReward { token_id },
                deposit: 0,
                gas: Some(FT_CALL_45_TGAS),
            },
        ],
    ]
}

/// The calls that take `amount` of the seed `seed_id` (pool `pool`) out of
/// the farm for `account`, and let this contract hear back.
pub open spec fn unfarm_calls(account: Seq<char>, seed_id: Seq<char>, amount: u128, pool: Seq<char>) -> Seq<Seq<CrossCallView>> {
    seq![
        seq![
            CrossCallView {
                receiver: ReceiverView::Account(REF_FARM_CONTRACT@),
                call: CallView::UnlockAndWithdrawSeed { seed_id, unlock_amount: 0, withdraw_amount: amount },
                deposit: DEPOSIT_YOCTO,
                gas: Some(FT_CALL_45_TGAS),
            },
            CrossCallView {
                receiver: ReceiverView::CurrentAccount,
                call: CallView::UnlockAndWithdrawSeedCallback { amount, pool_id: pool, account_id: account },
                deposit: 0,
                gas: None,
            },
        ],
    ]
}

/// Builds `add_liquidity_calls`.
fn add_liquidity_plan(account: String, pool_id: u64, amounts: &Vec<u128>, token1: String, token2: String) -> (calls: Vec<Vec<CrossCall>>)
    requires
        amounts@.len() >= 2,
    ensures
        calls_view(calls) == add_liquidity_calls(account@, pool_id, amounts@, token1@, token2@),
{
    let ghost a = account@;
    let ghost t1 = token1@;
    let ghost t2 = token2@;
    let calls = vec![
        vec![
            CrossCall {
                receiver: Receiver::Account(token1.clone()),
                call: Call::FtTransferCall { receiver_id: REF_CONTRACT.to_owned(), amount: amounts[0], msg: "".to_owned() },
                deposit: DEPOSIT_YOCTO,
                gas: Some(FT_CALL_35_TGAS),
            },
            CrossCall {
                receiver: Receiver::Account(token2.clone()),
                call: Call::FtTransferCall { receiver_id: REF_CONTRACT.to_owned(), amount: amounts[1], msg: "".to_owned() },
                deposit: DEPOSIT_YOCTO,
                gas: Some(FT_CALL_35_TGAS),
            },
            CrossCall {
                receiver: Receiver::Account(REF_CONTRACT.to_owned()),
                call: Call::AddLiquidity { pool_id, amounts: amounts.clone() },
                deposit: STORAGE_COST,
                gas: None,
            },
            CrossCall {
                receiver: Receiver::CurrentAccount,
                call: Call::AddLiquidityCallback {
                    account_id: account,
                    pool_id: decimal_string(pool_id as u128),
                    amounts: amounts.clone(),
                    token1,
                    token2,
                },
                deposit: 0,
                gas: None,
            },
        ],
    ];
    assert(calls_view(calls) =~~= add_liquidity_calls(a, pool_id, amounts@, t1, t2));
    calls
}

/// Builds `remove_liquidity_calls`.
fn remove_liquidity_plan(
    account: String,
    min_amounts: Vec<u128>,
    pool_id: u64,
    shares: u128,
    token1: String,
    token2: String,
) -> (calls: Vec<Vec<CrossCall>>)
    ensures
        calls_view(calls) == remove_liquidity_calls(account@, min_amounts@, pool_id, shares, token1@, token2@),
{
    let ghost a = account@;
    let ghost m = min_amounts@;
    let ghost t1 = token1@;
    let ghost t2 = token2@;
    let calls = vec![
        vec![
            CrossCall {
                receiver: Receiver::Account(REF_CONTRACT.to_owned()),
                call: Call::RemoveLiquidity { min_amounts, pool_id, shares },
                deposit: DEPOSIT_YOCTO,
                gas: None,
            },
            CrossCall {
                receiver: Receiver::CurrentAccount,
                call: Call::RemoveLiquidityCallback {
                    account_id: account.clone(),
                    pool_id: decimal_string(pool_id as u128),
                    shares,
                },
                deposit: 0,
                gas: None,
            },
        ],
        vec![
            CrossCall {
                receiver: Receiver::Account(REF_CONTRACT.to_owned()),
                call: Call::Withdraw { token_id: token1.clone(), amount: 0, unregister: false },
                deposit: DEPOSIT_YOCTO,
                gas: Some(FT_CALL_60_TGAS),
            },
            CrossCall {
                receiver: Receiver::CurrentAccount,
                call: Call::WithdrawCallback { account_id: account.clone(), token_id: token1 },
                deposit: 0,
                gas: None,
            },
        ],
        vec![
            CrossCall {
                receiver: Receiver::Account(REF_CONTRACT.to_owned()),
                call: Call::Withdraw { token_id: token2.clone(), amount: 0, unregister: false },
                deposit: DEPOSIT_YOCTO,
                gas: Some(FT_CALL_60_TGAS),
            },
            CrossCall {
                receiver: Receiver::CurrentAccount,
                call: Call::WithdrawCallback { account_id: account, token_id: token2 },
                deposit: 0,
                gas: None,
            },
        ],
    ];
    assert(calls_view(calls) =~~= remove_liquidity_calls(a, m, pool_id, shares, t1, t2));
    calls
}

/// Builds `farm_transfer_calls`.
fn farm_transfer_plan(account: String, amount: u128, token_id: String, pool: String) -> (calls: Vec<Vec<CrossCall>>)
    ensures
        calls_view(calls) == farm_transfer_calls(account@, amount, token_id@, pool@),
{
    let ghost a = account@;
    let ghost t = token_id@;
    let ghost p = pool@;
    let calls = vec![
        vec![
            CrossCall {
                receiver: Receiver::Account(REF_CONTRACT.to_owned()),
                call: Call::MftTransferCall {
                    amount,
                    msg: "\"Free\"".to_owned(),
                    receiver_id: REF_FARM_CONTRACT.to_owned(),
                    token_id,
                },
                deposit: DEPOSIT_YOCTO,
                gas: Some(FT_CALL_60_TGAS),
            },
            CrossCall {
                receiver: Receiver::CurrentAccount,
                call: Call::MftTransferCallback { amount, pool_id: pool, account_id: account },
                deposit: 0,
                gas: None,
            },
        ],
    ];
    assert(calls_view(calls) =~~= farm_transfer_calls(a, amount, t, p));
    calls
}

impl Contract {
    /// Whether paying `a0` of `t1` and then `a1` of `t2` through a copy of
    /// `account`'s record runs, when the account's balances cover both.
    pub fn liquidity_payment_runs(&self, account: &String, t1: &String, t2: &String, a0: u128, a1: u128) -> (r: bool)
        requires
            can_pay(*self, account@, t1@, t2@, a0, a1),
            self.token_reads(account@, t1@),
            self.token_reads(account@, t2@),
        ensures
            r == payment_runs(*self, account@, t1@, t2@, a0, a1),
    {
        let h = match self.user_balance.get(account) {
            Some(ub) => AmountMap { owner: ub.tokens.owner.clone(), len: ub.tokens.len },
            None => AmountMap { owner: String::new(), len: 0 },
        };
        if !slots_writable(&self.token_slots, &h, t1) {
            return false;
        }
        let b1 = match stored_get(&self.token_slots, &h, t1) {
            Some(v) => v,
            None => 0,
        };
        let mut scratch: OrderedMap<Slots> = OrderedMap::new();
        let copy = match self.token_slots.get(&h.owner) {
            Some(slots) => slots.duplicate(),
            None => Slots::new(),
        };
        scratch.insert(h.owner.clone(), copy);
        assert(slots_at(scratch@, h.owner@) == slots_at(self.token_slots@, h.owner@));
        let mut h1 = AmountMap { owner: h.owner.clone(), len: h.len };
        stored_insert(&mut scratch, &mut h1, t1.clone(), b1 - a0);
        if !slots_writable(&scratch, &h1, t2) {
            return false;
        }
        let b2 = match stored_get(&scratch, &h1, t2) {
            Some(v) => v,
            None => 0,
        };
        a1 <= b2
    }

    /// Checks that the caller can put `amounts[0]` of `token1` and
    /// `amounts[1]` of `token2` into pool `pool_id`, and sends the tokens to
    /// the exchange, the deposit into the pool, and the call back to
    /// `add_liquidity_callback`, one after the other. Answers `amounts`.
    /// Refused with `NotEnough` unless the caller's balances cover both
    /// amounts, and with `InvalidAccountId` if a token is not an account ID.
    pub fn call_add_liquidity(&self, predecessor_id: String, pool_id: u64, amounts: Vec<u128>, token1: String, token2: String) -> (r: Result<Outcome<Vec<u128>>, ContractError>)
        requires
            self.user_balance@.contains_key(predecessor_id@) ==> {
                &&& self.token_reads(predecessor_id@, token1@)
                &&& amounts@.len() >= 1
                &&& amounts@[0] <= self.balance_of(predecessor_id@, token1@) ==> self.token_reads(
                    predecessor_id@,
                    token2@,
                ) && amounts@.len() >= 2
            },
        ensures
            !can_pay(*self, predecessor_id@, token1@, token2@, amounts@[0], amounts@[1])
                ==> r == Err::<Outcome<Vec<u128>>, ContractError>(ContractError::NotEnough),
            can_pay(*self, predecessor_id@, token1@, token2@, amounts@[0], amounts@[1]) ==> {
                if account_id_rules(token1@) && account_id_rules(token2@) {
                    &&& r is Ok
                    &&& r->Ok_0.value@ == amounts@
                    &&& calls_view(r->Ok_0.calls) == add_liquidity_calls(predecessor_id@, pool_id, amounts@, token1@, token2@)
                } else {
                    r == Err::<Outcome<Vec<u128>>, ContractError>(ContractError::InvalidAccountId)
                }
            },
    {
        match self.user_balance.get(&predecessor_id) {
            Some(user_balance) => {
                let b1 = match stored_get(&self.token_slots, &user_balance.tokens, &token1) {
                    Some(v) => v,
                    None => 0,
                };
                if !(b1 >= amounts[0]) {
                    return Err(ContractError::NotEnough);
                }
                let b2 = match stored_get(&self.token_slots, &user_balance.tokens, &token2) {
                    Some(v) => v,
                    None => 0,
                };
                if b2 >= amounts[1] {
                    if is_valid_account_id(token1.as_str()) && is_valid_account_id(token2.as_str()) {
                        let calls = add_liquidity_plan(predecessor_id, pool_id, &amounts, token1, token2);
                        Ok(Outcome { value: amounts, calls })
                    } else {
                        Err(ContractError::InvalidAccountId)
                    }
                } else {
                    Err(ContractError::NotEnough)
                }
            },
            None => Err(ContractError::NotEnough),
        }
    }

    /// Checks that the caller can take `shares` out of pool `pool_id`, and
    /// sends, side by side, the removal and the withdrawals of `token1` and
    /// `token2` from the exchange, each followed by a call back to
    /// `remove_liquidity_callback` or `withdraw_callback`. Answers `shares`.
    /// Refused with `NotEnough` unless the caller has an entry for the pool
    /// holding at least `shares`, and with `InvalidAccountId` if a token is
    /// not an account ID.
    pub fn call_remove_liquidity(
        &self,
        predecessor_id: String,
        min_amounts: Vec<u128>,
        pool_id: u64,
        shares: u128,
        token1: String,
        token2: String,
    ) -> (r: Result<Outcome<u128>, ContractError>)
        requires
            self.pool_reads(predecessor_id@, decimal_text(pool_id as nat)),
        ensures
            !(self.pools_of(predecessor_id@).contains_key(decimal_text(pool_id as nat))
                && shares <= self.shares_of(predecessor_id@, decimal_text(pool_id as nat)))
                ==> r == Err::<Outcome<u128>, ContractError>(ContractError::NotEnough),
            self.pools_of(predecessor_id@).contains_key(decimal_text(pool_id as nat)) && shares
                <= self.shares_of(predecessor_id@, decimal_text(pool_id as nat)) ==> {
                if account_id_rules(token1@) && account_id_rules(token2@) {
                    &&& r is Ok
                    &&& r->Ok_0.value == shares
                    &&& calls_view(r->Ok_0.calls) == remove_liquidity_calls(
                        predecessor_id@,
                        min_amounts@,
                        pool_id,
                        shares,
                        token1@,
                        token2@,
                    )
                } else {
                    r == Err::<Outcome<u128>, ContractError>(ContractError::InvalidAccountId)
                }
            },
    {
        let pool_key = decimal_string(pool_id as u128);
        match self.pool_amount(&predecessor_id, &pool_key) {
            Some(current_shares) => {
                if current_shares >= shares {
                    if is_valid_account_id(token1.as_str()) && is_valid_account_id(token2.as_str()) {
                        let calls = remove_liquidity_plan(predecessor_id, min_amounts, pool_id, shares, token1, token2);
                        Ok(Outcome { value: shares, calls })
                    } else {
                        Err(ContractError::InvalidAccountId)
                    }
                } else {
                    Err(ContractError::NotEnough)
                }
            },
            None => Err(ContractError::NotEnough),
        }
    }

    /// The exchange answered the liquidity deposit for `account_id` with
    /// `last_result` (`None` when the calls failed and were reverted). On
    /// success the minted shares (the decimal reply) are added to the
    /// account's pool and the two token amounts are taken from its balances;
    /// the balances are paid through a copy of the account's record, and the
    /// copy is stored as `predecessor_id`'s record, so that both records
    /// share the account's storage while the account's own record keeps its
    /// count. Answers
    /// `"OK"`, `""` for a failed deposit and `"Update data failed"` for an
    /// account without balances, both changing nothing. Refused with
    /// `InvalidAmount` if the reply is not a decimal amount and with
    /// `NotEnough` if the balances no longer cover the amounts.
    pub fn add_liquidity_callback(
        &mut self,
        predecessor_id: String,
        account_id: String,
        pool_id: String,
        amounts: Vec<u128>,
        token1: String,
        token2: String,
        last_result: Option<String>,
    ) -> (r: Result<String, ContractError>)
        requires
            last_result is Some && old(self).user_balance@.contains_key(account_id@)
                && unsigned_value(last_result->0@) is Some ==> {
                &&& old(self).pool_writes(account_id@, pool_id@)
                &&& old(self).shares_of(account_id@, pool_id@) + unsigned_value(last_result->0@)->0 <= u128::MAX
                &&& old(self).token_reads(account_id@, token1@)
                &&& amounts@.len() >= 1
                &&& amounts@[0] <= old(self).balance_of(account_id@, token1@) ==> old(self).token_reads(
                    account_id@,
                    token2@,
                ) && amounts@.len() >= 2
                &&& can_pay(*old(self), account_id@, token1@, token2@, amounts@[0], amounts@[1]) ==> payment_runs(
                    *old(self),
                    account_id@,
                    token1@,
                    token2@,
                    amounts@[0],
                    amounts@[1],
                )
            },
        ensures
            last_result is None ==> r is Ok && r->Ok_0@ == ""@ && *final(self) == *old(self),
            last_result is Some && !old(self).user_balance@.contains_key(account_id@) ==> r is Ok
                && r->Ok_0@ == "Update data failed"@ && *final(self) == *old(self),
            last_result is Some && old(self).user_balance@.contains_key(account_id@) ==> {
                match unsigned_value(last_result->0@) {
                    None => r == Err::<String, ContractError>(ContractError::InvalidAmount) && *final(self)
                        == *old(self),
                    Some(minted) => if can_pay(*old(self), account_id@, token1@, token2@, amounts@[0], amounts@[1]) {
                        &&& r is Ok && r->Ok_0@ == "OK"@
                        &&& Contract::pool_set(
                            *old(self),
                            *final(self),
                            account_id@,
                            pool_id@,
                            (old(self).shares_of(account_id@, pool_id@) + minted) as u128,
                        )
                        &&& liquidity_paid(
                            *old(self),
                            *final(self),
                            account_id@,
                            predecessor_id@,
                            token1@,
                            token2@,
                            amounts@[0],
                            amounts@[1],
                        )
                        &&& final(self).message == old(self).message
                        &&& final(self).owner_id == old(self).owner_id
                        &&& final(self).stake_list == old(self).stake_list
                        &&& final(self).farmers == old(self).farmers
                        &&& final(self).farm_slots == old(self).farm_slots
                    } else {
                        r == Err::<String, ContractError>(ContractError::NotEnough) && *final(self) == *old(self)
                    },
                }
            },
            old(self).farmers_are_poolers() ==> final(self).farmers_are_poolers(),
    {
        let reply = match last_result {
            Some(reply) => reply,
            None => return Ok("".to_owned()),
        };
        let mut copy = match self.user_balance.get(&account_id) {
            Some(ub) => AmountMap { owner: ub.tokens.owner.clone(), len: ub.tokens.len },
            None => return Ok("Update data failed".to_owned()),
        };
        let minted = match parse_unsigned(reply.as_str()) {
            Some(v) => v,
            None => return Err(ContractError::InvalidAmount),
        };
        let b1 = match stored_get(&self.token_slots, &copy, &token1) {
            Some(v) => v,
            None => 0,
        };
        if !(b1 >= amounts[0]) {
            return Err(ContractError::NotEnough);
        }
        let b2 = match stored_get(&self.token_slots, &copy, &token2) {
            Some(v) => v,
            None => 0,
        };
        if !(b2 >= amounts[1]) {
            return Err(ContractError::NotEnough);
        }
        let ghost before = *self;
        self.add_pooler(account_id.clone(), pool_id, minted);
        let ghost s0 = *self;
        stored_insert(&mut self.token_slots, &mut copy, token1, b1 - amounts[0]);
        let b2_now = match stored_get(&self.token_slots, &copy, &token2) {
            Some(v) => v,
            None => 0,
        };
        stored_insert(&mut self.token_slots, &mut copy, token2, b2_now - amounts[1]);
        self.user_balance.insert(predecessor_id, UserBalance { tokens: copy });
        proof {
            assert(s0.token_slots == before.token_slots);
            assert(s0.user_balance == before.user_balance);
            assert(self.user_balance@.remove(predecessor_id@) =~= before.user_balance@.remove(predecessor_id@));
        }
        Ok("OK".to_owned())
    }

    /// The exchange answered the removal of `shares` of `pool_id` for
    /// `account_id` (`None` when the calls failed and were reverted). On
    /// success the shares are taken from the account's pool. Answers `"OK"`,
    /// or `""` for a failed removal, which changes nothing. Refused with
    /// `NotEnough` unless the account holds at least `shares` of the pool.
    pub fn remove_liquidity_callback(
        &mut self,
        account_id: String,
        pool_id: String,
        shares: u128,
        last_result: Option<Vec<u128>>,
    ) -> (r: Result<String, ContractError>)
        requires
            last_result is Some ==> old(self).pool_reads(account_id@, pool_id@),
        ensures
            last_result is None ==> r is Ok && r->Ok_0@ == ""@ && *final(self) == *old(self),
            last_result is Some ==> {
                if old(self).pools_of(account_id@).contains_key(pool_id@) && shares <= old(self).shares_of(account_id@, pool_id@) {
                    &&& r is Ok && r->Ok_0@ == "OK"@
                    &&& Contract::pool_set(
                        *old(self),
                        *final(self),
                        account_id@,
                        pool_id@,
                        (old(self).shares_of(account_id@, pool_id@) - shares) as u128,
                    )
                    &&& Contract::only_pools_differ(*old(self), *final(self))
                } else {
                    r == Err::<String, ContractError>(ContractError::NotEnough) && *final(self) == *old(self)
                }
            },
            old(self).farmers_are_poolers() ==> final(self).farmers_are_poolers(),
    {
        match last_result {
            Some(_) => match self.remove_pooler(account_id, pool_id, shares) {
                Ok(_) => Ok("OK".to_owned()),
                Err(e) => Err(e),
            },
            None => Ok("".to_owned()),
        }
    }

    /// The exchange answered a withdrawal of `token_id` for `account_id` with
    /// the amount withdrawn (`None` when it failed and was reverted), which
    /// is credited to the account's balance. Answers `"OK"`, or `""` for a
    /// failed withdrawal, which changes nothing. Refused with
    /// `InvalidAccountId` if the token is not an account ID.
    pub fn withdraw_callback(&mut self, account_id: String, token_id: String, last_result: Option<u128>) -> (r: Result<String, ContractError>)
        requires
            last_result is Some && account_id_rules(token_id@) ==> old(self).token_writes(account_id@, token_id@)
                && old(self).balance_of(account_id@, token_id@) + last_result->0 <= u128::MAX,
        ensures
            last_result is None ==> r is Ok && r->Ok_0@ == ""@ && *final(self) == *old(self),
            last_result is Some && !account_id_rules(token_id@) ==> r == Err::<String, ContractError>(
                ContractError::InvalidAccountId,
            ) && *final(self) == *old(self),
            last_result is Some && account_id_rules(token_id@) ==> {
                &&& r is Ok && r->Ok_0@ == "OK"@
                &&& Contract::token_set(
                    *old(self),
                    *final(self),
                    account_id@,
                    token_id@,
                    (old(self).balance_of(account_id@, token_id@) + last_result->0) as u128,
                )
                &&& Contract::only_balances_differ(*old(self), *final(self))
            },
            old(self).farmers_are_poolers() ==> final(self).farmers_are_poolers(),
    {
        match last_result {
            Some(amount) => {
                if !is_valid_account_id(token_id.as_str()) {
                    return Err(ContractError::InvalidAccountId);
                }
                self.update_user_balance(account_id, token_id, amount);
                Ok("OK".to_owned())
            },
            None => Ok("".to_owned()),
        }
    }

    /// Adds `amount` shares of `pool_id` to `account_id`, creating its
    /// entries as needed; answers `amount`.
    pub fn add_pooler(&mut self, account_id: String, pool_id: String, amount: u128) -> (r: u128)
        requires
            old(self).pool_writes(account_id@, pool_id@),
            old(self).shares_of(account_id@, pool_id@) + amount <= u128::MAX,
        ensures
            r == amount,
            Contract::pool_set(
                *old(self),
                *final(self),
                account_id@,
                pool_id@,
                (old(self).shares_of(account_id@, pool_id@) + amount) as u128,
            ),
            Contract::only_pools_differ(*old(self), *final(self)),
            old(self).farmers_are_poolers() ==> final(self).farmers_are_poolers(),
    {
        let current = match self.pool_amount(&account_id, &pool_id) {
            Some(v) => v,
            None => 0,
        };
        self.set_pool(&account_id, pool_id, current + amount);
        assert forall|a: Seq<char>| #[trigger] old(self).poolers@.contains_key(a) implies self.poolers@.contains_key(a) by {
            if a != account_id@ {
                assert(old(self).poolers@.remove(account_id@).contains_key(a));
            }
        }
        amount
    }

    /// Takes `amount` shares of `pool_id` from `account_id`; answers
    /// `amount`. Refused with `NotEnough` unless the account has an entry for
    /// the pool holding at least `amount`.
    pub fn remove_pooler(&mut self, account_id: String, pool_id: String, amount: u128) -> (r: Result<u128, ContractError>)
        requires
            old(self).pool_reads(account_id@, pool_id@),
        ensures
            r is Ok <==> old(self).pools_of(account_id@).contains_key(pool_id@) && amount <= old(self).shares_of(
                account_id@,
                pool_id@,
            ),
            r is Err ==> r == Err::<u128, ContractError>(ContractError::NotEnough) && *final(self) == *old(self),
            r is Ok ==> r == Ok::<u128, ContractError>(amount),
            r is Ok ==> Contract::pool_set(
                *old(self),
                *final(self),
                account_id@,
                pool_id@,
                (old(self).shares_of(account_id@, pool_id@) - amount) as u128,
            ),
            r is Ok ==> Contract::only_pools_differ(*old(self), *final(self)),
            old(self).farmers_are_poolers() ==> final(self).farmers_are_poolers(),
    {
        match self.pool_amount(&account_id, &pool_id) {
            Some(current) => {
                if amount <= current {
                    self.set_pool(&account_id, pool_id, current - amount);
                    assert forall|a: Seq<char>| #[trigger] old(self).poolers@.contains_key(a) implies self.poolers@.contains_key(a) by {
                        if a != account_id@ {
                            assert(old(self).poolers@.remove(account_id@).contains_key(a));
                        }
                    }
                    Ok(amount)
                } else {
                    Err(ContractError::NotEnough)
                }
            },
            None => Err(ContractError::NotEnough),
        }
    }

    /// Checks that the caller can farm `amount` shares of the pool named by
    /// the pool token ID `pool_id` (`:` and the pool), and sends the shares
    /// from the exchange to the farm, followed by a call back to
    /// `mft_transfer_callback`. Answers `amount`. Refused with
    /// `IllegalTokenId` if `pool_id` does not start with `:`, and with
    /// `NotEnoughPool` unless the caller holds at least `amount` shares of
    /// the pool.
    pub fn call_mft_transfer_call(&self, predecessor_id: String, amount: u128, pool_id: String) -> (r: Result<Outcome<u128>, ContractError>)
        requires
            token_pool_id(pool_id@) is Some && self.poolers@.contains_key(predecessor_id@) ==> self.pool_reads(
                predecessor_id@,
                token_pool_id(pool_id@)->0,
            ),
        ensures
            match token_pool_id(pool_id@) {
                None => r == Err::<Outcome<u128>, ContractError>(ContractError::IllegalTokenId),
                Some(pool) => if self.poolers@.contains_key(predecessor_id@) && amount <= self.shares_of(
                    predecessor_id@,
                    pool,
                ) {
                    &&& r is Ok
                    &&& r->Ok_0.value == amount
                    &&& calls_view(r->Ok_0.calls) == farm_transfer_calls(predecessor_id@, amount, pool_id@, pool)
                } else {
                    r == Err::<Outcome<u128>, ContractError>(ContractError::NotEnoughPool)
                },
            },
    {
        let parsed_pool_id = match self.parse_pool_id(pool_id.clone()) {
            Ok(p) => p,
            Err(e) => return Err(e),
        };
        match self.assert_pool_balance(predecessor_id.clone(), parsed_pool_id.clone(), amount) {
            Ok(()) => {
                let calls = farm_transfer_plan(predecessor_id, amount, pool_id, parsed_pool_id);
                Ok(Outcome { value: amount, calls })
            },
            Err(e) => Err(e),
        }
    }

    /// The farm answered the transfer of `amount` shares of `pool_id` for
    /// `account_id` (`None` when it failed and was reverted). On success the
    /// shares move from the account's pool to its farm. Answers `"OK"`, or
    /// `""` for a failed transfer, which changes nothing. Refused with
    /// `NotEnoughPool` unless the account still holds the shares.
    pub fn mft_transfer_callback(&mut self, amount: u128, pool_id: String, account_id: String, last_result: Option<u128>) -> (r: Result<String, ContractError>)
        requires
            last_result is Some && old(self).poolers@.contains_key(account_id@) ==> old(self).pool_reads(account_id@, pool_id@),
            last_result is Some && old(self).poolers@.contains_key(account_id@) && amount <= old(self).shares_of(account_id@, pool_id@)
                ==> {
                &&& old(self).pool_writes(account_id@, pool_id@)
                &&& old(self).farm_writes(account_id@, pool_id@)
                &&& old(self).farmed_of(account_id@, pool_id@) + amount <= u128::MAX
            },
        ensures
            last_result is None ==> r is Ok && r->Ok_0@ == ""@ && *final(self) == *old(self),
            last_result is Some ==> {
                if old(self).poolers@.contains_key(account_id@) && amount <= old(self).shares_of(account_id@, pool_id@) {
                    &&& r is Ok && r->Ok_0@ == "OK"@
                    &&& Contract::pool_set_through_copy(
                        *old(self),
                        *final(self),
                        account_id@,
                        pool_id@,
                        (old(self).shares_of(account_id@, pool_id@) - amount) as u128,
                    )
                    &&& Contract::farm_set(
                        *old(self),
                        *final(self),
                        account_id@,
                        pool_id@,
                        (old(self).farmed_of(account_id@, pool_id@) + amount) as u128,
                    )
                    &&& Contract::only_pools_and_farms_differ(*old(self), *final(self))
                } else {
                    r == Err::<String, ContractError>(ContractError::NotEnoughPool) && *final(self) == *old(self)
                }
            },
            old(self).farmers_are_poolers() ==> final(self).farmers_are_poolers(),
    {
        match last_result {
            Some(_) => match self.transfer_pool_to_farm(account_id, pool_id, amount) {
                Ok(()) => Ok("OK".to_owned()),
                Err(e) => Err(e),
            },
            None => Ok("".to_owned()),
        }
    }

    /// Asks the farm to hand the contract's rewards for `seed_id` over, for
    /// the owner; answers 0. Refused with `NotAllowed` unless the caller is
    /// the owner.
    pub fn call_claim_reward_by_seed(&self, predecessor_id: String, seed_id: String) -> (r: Result<Outcome<u128>, ContractError>)
        ensures
            r is Ok <==> predecessor_id@ == self.owner_id@,
            r is Ok ==> r->Ok_0.value == 0 && calls_view(r->Ok_0.calls) == claim_reward_calls(seed_id@),
            r is Err ==> r == Err::<Outcome<u128>, ContractError>(ContractError::NotAllowed),
    {
        match self.assert_owner(&predecessor_id) {
            Ok(()) => {
                let calls = vec![
                    vec![
                        CrossCall {
                            receiver: Receiver::Account(REF_FARM_CONTRACT.to_owned()),
                            call: Call::ClaimRewardBySeed { seed_id },
                            deposit: 0,
                            gas: Some(FT_CALL_35_TGAS),
                        },
                    ],
                ];
                assert(calls_view(calls) =~~= claim_reward_calls(seed_id@));
                Ok(Outcome { value: 0, calls })
            },
            Err(e) => Err(e),
        }
    }

    /// Asks the farm to send the contract's rewards in `token_id`, for the
    /// owner; answers 0. Refused with `NotAllowed` unless the caller is the
    /// owner.
    pub fn call_withdraw_reward(&self, predecessor_id: String, token_id: String) -> (r: Result<Outcome<u128>, ContractError>)
        ensures
            r is Ok <==> predecessor_id@ == self.owner_id@,
            r is Ok ==> r->Ok_0.value == 0 && calls_view(r->Ok_0.calls) == withdraw_reward_calls(token_id@),
            r is Err ==> r == Err::<Outcome<u128>, ContractError>(ContractError::NotAllowed),
    {
        match self.assert_owner(&predecessor_id) {
            Ok(()) => {
                let calls = vec![
                    vec![
                        CrossCall {
                            receiver: Receiver::Account(REF_FARM_CONTRACT.to_owned()),
                            call: Call::WithdrawReward { token_id },
                            deposit: 0,
                            gas: Some(FT_CALL_45_TGAS),
                        },
                    ],
                ];
                assert(calls_view(calls) =~~= withdraw_reward_calls(token_id@));
                Ok(Outcome { value: 0, calls })
            },
            Err(e) => Err(e),
        }
    }

    /// Checks that the caller can take `amount` of the seed `seed_id`
    /// (`<exchange>@<pool>`) out of the farm, and sends the withdrawal,
    /// followed by a call back to `unlock_and_withdraw_seed_callback`.
    /// Answers 0. Refused with `IllegalSeedId` if the seed ID does not name a
    /// pool, and with `NotEnoughFarm` unless the caller farms at least
    /// `amount` of it.
    pub fn call_unlock_and_withdraw_seed(&self, predecessor_id: String, seed_id: String, amount: u128) -> (r: Result<Outcome<u128>, ContractError>)
        requires
            seed_pool_id(seed_id@) is Some && self.farmers@.contains_key(predecessor_id@) ==> self.farm_reads(
                predecessor_id@,
                seed_pool_id(seed_id@)->0,
            ),
        ensures
            match seed_pool_id(seed_id@) {
                None => r == Err::<Outcome<u128>, ContractError>(ContractError::IllegalSeedId),
                Some(pool) => if self.farmers@.contains_key(predecessor_id@) && amount <= self.farmed_of(
                    predecessor_id@,
                    pool,
                ) {
                    &&& r is Ok
                    &&& r->Ok_0.value == 0
                    &&& calls_view(r->Ok_0.calls) == unfarm_calls(predecessor_id@, seed_id@, amount, pool)
                } else {
                    r == Err::<Outcome<u128>, ContractError>(ContractError::NotEnoughFarm)
                },
            },
    {
        let parsed_pool_id = match self.parse_pool_id_from_seed_id(seed_id.clone()) {
            Ok(p) => p,
            Err(e) => return Err(e),
        };
        match self.assert_farm_balance(predecessor_id.clone(), parsed_pool_id.clone(), amount) {
            Ok(()) => {
                let ghost pool = parsed_pool_id@;
                let calls = vec![
                    vec![
                        CrossCall {
                            receiver: Receiver::Account(REF_FARM_CONTRACT.to_owned()),
                            call: Call::UnlockAndWithdrawSeed { seed_id, unlock_amount: 0, withdraw_amount: amount },
                            deposit: DEPOSIT_YOCTO,
                            gas: Some(FT_CALL_45_TGAS),
                        },
                        CrossCall {
                            receiver: Receiver::CurrentAccount,
                            call: Call::UnlockAndWithdrawSeedCallback {
                                amount,
                                pool_id: parsed_pool_id,
                                account_id: predecessor_id,
                            },
                            deposit: 0,
                            gas: None,
                        },
                    ],
                ];
                assert(calls_view(calls) =~~= unfarm_calls(predecessor_id@, seed_id@, amount, pool));
                Ok(Outcome { value: 0, calls })
            },
            Err(e) => Err(e),
        }
    }

    /// The farm answered the withdrawal of `amount` of `pool_id` for
    /// `account_id` (`None` when it failed and was reverted). On success the
    /// amount moves from the account's farm back to its pool. Answers
    /// `"OK"`, or `""` for a failed withdrawal, which changes nothing.
    /// Refused with `NotEnoughFarm` unless the account still farms the amount.
    pub fn unlock_and_withdraw_seed_callback(
        &mut self,
        amount: u128,
        pool_id: String,
        account_id: String,
        last_result: Option<bool>,
    ) -> (r: Result<String, ContractError>)
        requires
            last_result is Some && old(self).farmers@.contains_key(account_id@) ==> old(self).farm_reads(account_id@, pool_id@),
            last_result is Some && old(self).farmers@.contains_key(account_id@) && amount <= old(self).farmed_of(account_id@, pool_id@)
                ==> {
                &&& old(self).farm_writes(account_id@, pool_id@)
                &&& old(self).poolers@.contains_key(account_id@)
                &&& old(self).pool_writes(account_id@, pool_id@)
                &&& old(self).shares_of(account_id@, pool_id@) + amount <= u128::MAX
            },
        ensures
            last_result is None ==> r is Ok && r->Ok_0@ == ""@ && *final(self) == *old(self),
            last_result is Some ==> {
                if old(self).farmers@.contains_key(account_id@) && amount <= old(self).farmed_of(account_id@, pool_id@) {
                    &&& r is Ok && r->Ok_0@ == "OK"@
                    &&& Contract::farm_set_through_copy(
                        *old(self),
                        *final(self),
                        account_id@,
                        pool_id@,
                        (old(self).farmed_of(account_id@, pool_id@) - amount) as u128,
                    )
                    &&& Contract::pool_set(
                        *old(self),
                        *final(self),
                        account_id@,
                        pool_id@,
                        (old(self).shares_of(account_id@, pool_id@) + amount) as u128,
                    )
                    &&& Contract::only_pools_and_farms_differ(*old(self), *final(self))
                } else {
                    r == Err::<String, ContractError>(ContractError::NotEnoughFarm) && *final(self) == *old(self)
                }
            },
            old(self).farmers_are_poolers() ==> final(self).farmers_are_poolers(),
    {
        match last_result {
            Some(_) => match self.transfer_farm_to_pool(account_id, pool_id, amount) {
                Ok(()) => Ok("OK".to_owned()),
                Err(e) => Err(e),
            },
            None => Ok("".to_owned()),
        }
    }
}

} // verus!
