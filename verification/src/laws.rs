use vstd::prelude::*;
use crate::internals::{seed_pool_id, sole_separator, token_pool_id};
use crate::calls::{CallView, CrossCallView, ReceiverView};
use crate::ref_finance::{
    add_liquidity_calls, can_pay, farm_transfer_calls, liquidity_paid, remove_liquidity_calls, unfarm_calls,
};
use crate::stake::{
    listed_account, near_suffix, stake_answer, stake_key, unstake_answer, window_len, window_start, Unstaked,
};
use crate::text::decimal_text;
use crate::user::token_payout;
use crate::utils::{DEPOSIT_YOCTO, REF_CONTRACT, REF_FARM_CONTRACT, STORAGE_COST};
use crate::storage::{
    clean, len_after, lemma_clean_listing, lemma_clean_write, lemma_clean_write_uncounted, lemma_other_slots,
    lemma_restored_reading, lemma_write_then_write, listed, slots_at, visible, written,
};
use crate::text::replace_all;
use crate::{map_len, map_owner, map_slots, Contract};

verus! {

/// What a read of a balance gives back of a write: after `amount` is
/// written under `token` through `account`'s clean token map, that balance
/// reads `amount`, the account's other balances read as before and stay an
/// ordinary map, and so do the balances of every account whose map lives
/// under another prefix.
pub proof fn balance_read_after_write(old: Contract, new: Contract, account: Seq<char>, token: Seq<char>, amount: u128)
    requires
        Contract::token_set(old, new, account, token, amount),
        old.tokens_clean(account),
        map_len(old.token_map(account)) < u64::MAX,
    ensures
        new.balance_of(account, token) == amount,
        new.tokens_of(account) == old.tokens_of(account).insert(token, amount),
        new.tokens_clean(account),
        forall|b: Seq<char>|
            b != account && map_owner(old.token_map(b), b) != map_owner(old.token_map(account), account)
                ==> #[trigger] new.tokens_of(b) == old.tokens_of(b),
{
    let m = old.token_map(account);
    let s = map_slots(old.token_slots@, m, account);
    let owner = map_owner(m, account);
    lemma_clean_write(s, map_len(m), token, amount);
    assert forall|b: Seq<char>|
        b != account && map_owner(old.token_map(b), b) != owner implies #[trigger] new.tokens_of(b) == old.tokens_of(b) by {
        assert(new.user_balance@.remove(account).contains_key(b) == new.user_balance@.contains_key(b));
        assert(old.user_balance@.remove(account).contains_key(b) == old.user_balance@.contains_key(b));
        if new.user_balance@.contains_key(b) {
            assert(new.user_balance@.remove(account)[b] == new.user_balance@[b]);
            assert(old.user_balance@.remove(account)[b] == old.user_balance@[b]);
        }
        assert(new.token_map(b) == old.token_map(b));
        lemma_other_slots(old.token_slots@, new.token_slots@, owner, map_owner(old.token_map(b), b));
    }
}

/// What a read of pool shares gives back of a write, as for balances.
pub proof fn shares_read_after_write(old: Contract, new: Contract, account: Seq<char>, pool: Seq<char>, amount: u128)
    requires
        Contract::pool_set(old, new, account, pool, amount),
        old.pools_clean(account),
        map_len(old.pool_map(account)) < u64::MAX,
    ensures
        new.shares_of(account, pool) == amount,
        new.pools_of(account) == old.pools_of(account).insert(pool, amount),
        new.pools_clean(account),
        forall|b: Seq<char>|
            b != account && map_owner(old.pool_map(b), b) != map_owner(old.pool_map(account), account)
                ==> #[trigger] new.pools_of(b) == old.pools_of(b),
{
    let m = old.pool_map(account);
    let s = map_slots(old.pool_slots@, m, account);
    let owner = map_owner(m, account);
    lemma_clean_write(s, map_len(m), pool, amount);
    assert forall|b: Seq<char>|
        b != account && map_owner(old.pool_map(b), b) != owner implies #[trigger] new.pools_of(b) == old.pools_of(b) by {
        assert(new.poolers@.remove(account).contains_key(b) == new.poolers@.contains_key(b));
        assert(old.poolers@.remove(account).contains_key(b) == old.poolers@.contains_key(b));
        if new.poolers@.contains_key(b) {
            assert(new.poolers@.remove(account)[b] == new.poolers@[b]);
            assert(old.poolers@.remove(account)[b] == old.poolers@[b]);
        }
        assert(new.pool_map(b) == old.pool_map(b));
        lemma_other_slots(old.pool_slots@, new.pool_slots@, owner, map_owner(old.pool_map(b), b));
    }
}

/// What a read of a farm gives back of a write, as for balances.
pub proof fn farmed_read_after_write(old: Contract, new: Contract, account: Seq<char>, farm: Seq<char>, amount: u128)
    requires
        Contract::farm_set(old, new, account, farm, amount),
        old.farms_clean(account),
        map_len(old.farm_map(account)) < u64::MAX,
    ensures
        new.farmed_of(account, farm) == amount,
        new.farms_of(account) == old.farms_of(account).insert(farm, amount),
        new.farms_clean(account),
        forall|b: Seq<char>|
            b != account && map_owner(old.farm_map(b), b) != map_owner(old.farm_map(account), account)
                ==> #[trigger] new.farms_of(b) == old.farms_of(b),
{
    let m = old.farm_map(account);
    let s = map_slots(old.farm_slots@, m, account);
    let owner = map_owner(m, account);
    lemma_clean_write(s, map_len(m), farm, amount);
    assert forall|b: Seq<char>|
        b != account && map_owner(old.farm_map(b), b) != owner implies #[trigger] new.farms_of(b) == old.farms_of(b) by {
        assert(new.farmers@.remove(account).contains_key(b) == new.farmers@.contains_key(b));
        assert(old.farmers@.remove(account).contains_key(b) == old.farmers@.contains_key(b));
        if new.farmers@.contains_key(b) {
            assert(new.farmers@.remove(account)[b] == new.farmers@[b]);
            assert(old.farmers@.remove(account)[b] == old.farmers@[b]);
        }
        assert(new.farm_map(b) == old.farm_map(b));
        lemma_other_slots(old.farm_slots@, new.farm_slots@, owner, map_owner(old.farm_map(b), b));
    }
}

/// Where `account`'s map is its record, every other account keeps its
/// token map.
proof fn lemma_token_maps_kept(old: Contract, new: Contract, account: Seq<char>, b: Seq<char>)
    requires
        new.user_balance@.remove(account) == old.user_balance@.remove(account),
        b != account,
    ensures
        new.token_map(b) == old.token_map(b),
{
    assert(new.user_balance@.remove(account).contains_key(b) == new.user_balance@.contains_key(b));
    assert(old.user_balance@.remove(account).contains_key(b) == old.user_balance@.contains_key(b));
    if new.user_balance@.contains_key(b) {
        assert(new.user_balance@.remove(account)[b] == new.user_balance@[b]);
        assert(old.user_balance@.remove(account)[b] == old.user_balance@[b]);
    }
}

/// Where only `account`'s pool record changed, every other account keeps
/// its pool map.
proof fn lemma_pool_maps_kept(old: Contract, new: Contract, account: Seq<char>, b: Seq<char>)
    requires
        new.poolers@.remove(account) == old.poolers@.remove(account),
        b != account,
    ensures
        new.pool_map(b) == old.pool_map(b),
{
    assert(new.poolers@.remove(account).contains_key(b) == new.poolers@.contains_key(b));
    assert(old.poolers@.remove(account).contains_key(b) == old.poolers@.contains_key(b));
    if new.poolers@.contains_key(b) {
        assert(new.poolers@.remove(account)[b] == new.poolers@[b]);
        assert(old.poolers@.remove(account)[b] == old.poolers@[b]);
    }
}

/// A deposit of `token` to `account` overwrites no balance that a token map
/// reads: where the token is new to the account's map, no map of the same
/// storage that reads the position the token takes reads a nonzero amount
/// there.
pub open spec fn deposit_hides_no_balance(c: Contract, account: Seq<char>, token: Seq<char>) -> bool {
    let s = map_slots(c.token_slots@, c.token_map(account), account);
    let n = map_len(c.token_map(account));
    forall|b: Seq<char>, u: Seq<char>|
        #[trigger] c.token_reads(b, u) && map_owner(c.token_map(b), b) == map_owner(c.token_map(account), account)
            && n < map_len(c.token_map(b)) && !s.index.contains_key(token) && s.index.contains_key(u) && s.index[u]
            == n ==> s.cells[n as int].1 == 0
}

/// A credit of `pool` shares to `account` overwrites no amount that a pool
/// map reads (as for deposits).
pub open spec fn pool_credit_hides_no_shares(c: Contract, account: Seq<char>, pool: Seq<char>) -> bool {
    let s = map_slots(c.pool_slots@, c.pool_map(account), account);
    let n = map_len(c.pool_map(account));
    forall|b: Seq<char>, q: Seq<char>|
        #[trigger] c.pool_reads(b, q) && map_owner(c.pool_map(b), b) == map_owner(c.pool_map(account), account)
            && n < map_len(c.pool_map(b)) && !s.index.contains_key(pool) && s.index.contains_key(q) && s.index[q]
            == n ==> s.cells[n as int].1 == 0
}

/// Withdrawing what was just deposited is always covered, and afterwards
/// every balance of every account that could be read before the deposit
/// reads as it did, unless the deposit overwrote a balance that another
/// account's map read.
pub proof fn withdraw_undoes_deposit(
    c0: Contract,
    c1: Contract,
    c2: Contract,
    account: Seq<char>,
    token: Seq<char>,
    amount: u128,
)
    requires
        c0.token_writes(account, token),
        c0.balance_of(account, token) + amount <= u128::MAX,
        deposit_hides_no_balance(c0, account, token),
        Contract::token_set(c0, c1, account, token, (c0.balance_of(account, token) + amount) as u128),
    ensures
        c1.token_reads(account, token),
        c1.tokens_of(account).contains_key(token),
        amount <= c1.balance_of(account, token),
        Contract::token_set(c1, c2, account, token, (c1.balance_of(account, token) - amount) as u128)
            ==> forall|b: Seq<char>, u: Seq<char>|
            c0.token_reads(b, u) ==> #[trigger] c2.balance_of(b, u) == c0.balance_of(b, u),
{
    let m = c0.token_map(account);
    let s = map_slots(c0.token_slots@, m, account);
    let n = map_len(m);
    let owner = map_owner(m, account);
    let v0 = c0.balance_of(account, token);
    let v1 = (v0 + amount) as u128;
    lemma_write_then_write(s, n, token, v1, v0);
    let w1 = written(s, n, token, v1);
    let n1 = len_after(s, n, token);
    assert(c1.token_map(account) == Some(c1.user_balance@[account].tokens));
    assert(map_slots(c1.token_slots@, c1.token_map(account), account) == w1);
    assert(c1.balance_of(account, token) == v1);
    if Contract::token_set(c1, c2, account, token, (c1.balance_of(account, token) - amount) as u128) {
        assert(slots_at(c2.token_slots@, owner) == written(s, n, token, v0));
        assert forall|b: Seq<char>, u: Seq<char>| c0.token_reads(b, u) implies #[trigger] c2.balance_of(b, u)
            == c0.balance_of(b, u) by {
            if b == account {
                lemma_restored_reading(s, n, token, n, u);
                assert(c2.token_map(account) == Some(c2.user_balance@[account].tokens));
            } else {
                lemma_token_maps_kept(c0, c1, account, b);
                lemma_token_maps_kept(c1, c2, account, b);
                let ob = map_owner(c0.token_map(b), b);
                if c0.token_map(b) is None {
                    assert(!visible(map_slots(c2.token_slots@, c2.token_map(b), b), 0).contains_key(u));
                    assert(!visible(map_slots(c0.token_slots@, c0.token_map(b), b), 0).contains_key(u));
                } else if ob == owner {
                    lemma_restored_reading(s, n, token, map_len(c0.token_map(b)), u);
                } else {
                    lemma_other_slots(c0.token_slots@, c1.token_slots@, owner, ob);
                    lemma_other_slots(c1.token_slots@, c2.token_slots@, owner, ob);
                }
            }
        }
    }
}

/// Two credits of shares of a pool to an account leave every account's
/// pool shares, and their listing, as one credit of the sum does.
pub proof fn pool_credits_add_up(
    c0: Contract,
    c1: Contract,
    c2: Contract,
    once: Contract,
    account: Seq<char>,
    pool: Seq<char>,
    x: u128,
    y: u128,
)
    requires
        c0.pool_writes(account, pool),
        c0.shares_of(account, pool) + x + y <= u128::MAX,
        Contract::pool_set(c0, c1, account, pool, (c0.shares_of(account, pool) + x) as u128),
        Contract::pool_set(c1, c2, account, pool, (c1.shares_of(account, pool) + y) as u128),
        Contract::pool_set(c0, once, account, pool, (c0.shares_of(account, pool) + (x + y)) as u128),
    ensures
        c1.pool_writes(account, pool),
        c1.shares_of(account, pool) + y <= u128::MAX,
        forall|b: Seq<char>|
            #[trigger] c2.pools_of(b) == once.pools_of(b) && c2.pool_listing(b) == once.pool_listing(b),
{
    let m = c0.pool_map(account);
    let s = map_slots(c0.pool_slots@, m, account);
    let n = map_len(m);
    let owner = map_owner(m, account);
    let v1 = (c0.shares_of(account, pool) + x) as u128;
    let v = (c0.shares_of(account, pool) + (x + y)) as u128;
    lemma_write_then_write(s, n, pool, v1, v);
    assert(c1.pool_map(account) == Some(c1.poolers@[account].pools));
    assert(map_slots(c1.pool_slots@, c1.pool_map(account), account) == written(s, n, pool, v1));
    assert(c1.shares_of(account, pool) == v1);
    assert(slots_at(c2.pool_slots@, owner) == slots_at(once.pool_slots@, owner));
    assert forall|b: Seq<char>| #[trigger] c2.pools_of(b) == once.pools_of(b) && c2.pool_listing(b) == once.pool_listing(b) by {
        if b == account {
            assert(c2.pool_map(account) == Some(c2.poolers@[account].pools));
            assert(once.pool_map(account) == Some(once.poolers@[account].pools));
        } else {
            lemma_pool_maps_kept(c0, c1, account, b);
            lemma_pool_maps_kept(c1, c2, account, b);
            lemma_pool_maps_kept(c0, once, account, b);
            let ob = map_owner(c0.pool_map(b), b);
            if ob != owner {
                lemma_other_slots(c0.pool_slots@, c1.pool_slots@, owner, ob);
                lemma_other_slots(c1.pool_slots@, c2.pool_slots@, owner, ob);
                lemma_other_slots(c0.pool_slots@, once.pool_slots@, owner, ob);
            }
        }
    }
}

/// Taking back shares just credited to an account is always covered, and
/// afterwards every pool reading of every account that could be read before
/// the credit reads as it did, unless the credit overwrote shares that
/// another account's map read.
pub proof fn pool_debit_undoes_credit(c0: Contract, c1: Contract, c2: Contract, account: Seq<char>, pool: Seq<char>, x: u128)
    requires
        c0.pool_writes(account, pool),
        c0.shares_of(account, pool) + x <= u128::MAX,
        pool_credit_hides_no_shares(c0, account, pool),
        Contract::pool_set(c0, c1, account, pool, (c0.shares_of(account, pool) + x) as u128),
    ensures
        c1.pool_reads(account, pool),
        c1.pools_of(account).contains_key(pool),
        x <= c1.shares_of(account, pool),
        Contract::pool_set(c1, c2, account, pool, (c1.shares_of(account, pool) - x) as u128)
            ==> forall|b: Seq<char>, q: Seq<char>|
            c0.pool_reads(b, q) ==> #[trigger] c2.shares_of(b, q) == c0.shares_of(b, q),
{
    let m = c0.pool_map(account);
    let s = map_slots(c0.pool_slots@, m, account);
    let n = map_len(m);
    let owner = map_owner(m, account);
    let v0 = c0.shares_of(account, pool);
    let v1 = (v0 + x) as u128;
    lemma_write_then_write(s, n, pool, v1, v0);
    let w1 = written(s, n, pool, v1);
    assert(c1.pool_map(account) == Some(c1.poolers@[account].pools));
    assert(map_slots(c1.pool_slots@, c1.pool_map(account), account) == w1);
    assert(c1.shares_of(account, pool) == v1);
    if Contract::pool_set(c1, c2, account, pool, (c1.shares_of(account, pool) - x) as u128) {
        assert(slots_at(c2.pool_slots@, owner) == written(s, n, pool, v0));
        assert forall|b: Seq<char>, q: Seq<char>| c0.pool_reads(b, q) implies #[trigger] c2.shares_of(b, q)
            == c0.shares_of(b, q) by {
            if b == account {
                lemma_restored_reading(s, n, pool, n, q);
                assert(c2.pool_map(account) == Some(c2.poolers@[account].pools));
            } else {
                lemma_pool_maps_kept(c0, c1, account, b);
                lemma_pool_maps_kept(c1, c2, account, b);
                let ob = map_owner(c0.pool_map(b), b);
                if c0.pool_map(b) is None {
                    assert(!visible(map_slots(c2.pool_slots@, c2.pool_map(b), b), 0).contains_key(q));
                    assert(!visible(map_slots(c0.pool_slots@, c0.pool_map(b), b), 0).contains_key(q));
                } else if ob == owner {
                    lemma_restored_reading(s, n, pool, map_len(c0.pool_map(b)), q);
                } else {
                    lemma_other_slots(c0.pool_slots@, c1.pool_slots@, owner, ob);
                    lemma_other_slots(c1.pool_slots@, c2.pool_slots@, owner, ob);
                }
            }
        }
    }
}

/// Farming `amount` shares of a pool keeps the sum of the account's shares
/// and its farmed amount for that pool, on clean maps.
pub proof fn farming_keeps_shares(old: Contract, new: Contract, account: Seq<char>, pool: Seq<char>, amount: u128)
    requires
        old.poolers@.contains_key(account),
        old.pools_clean(account),
        old.farms_clean(account),
        map_len(old.pool_map(account)) < u64::MAX,
        map_len(old.farm_map(account)) < u64::MAX,
        amount <= old.shares_of(account, pool),
        old.farmed_of(account, pool) + amount <= u128::MAX,
        Contract::pool_set_through_copy(old, new, account, pool, (old.shares_of(account, pool) - amount) as u128),
        Contract::farm_set(old, new, account, pool, (old.farmed_of(account, pool) + amount) as u128),
    ensures
        new.shares_of(account, pool) + new.farmed_of(account, pool) == old.shares_of(account, pool)
            + old.farmed_of(account, pool),
{
    farmed_read_after_write(old, new, account, pool, (old.farmed_of(account, pool) + amount) as u128);
    let h = old.poolers@[account].pools;
    let s = slots_at(old.pool_slots@, h.owner@);
    let v = (old.shares_of(account, pool) - amount) as u128;
    assert(new.pool_map(account) == old.pool_map(account));
    if s.index.contains_key(pool) {
        lemma_clean_write(s, h.len as nat, pool, v);
    } else {
        lemma_clean_write_uncounted(s, h.len as nat, pool, v);
    }
}

/// Farming `amount` shares of a pool the account holds an entry for, and
/// then taking the same amount out of the farm, is always covered and leaves
/// the pool shares and the farmed amount as they were.
pub proof fn unfarm_undoes_farm(c0: Contract, c1: Contract, c2: Contract, account: Seq<char>, pool: Seq<char>, amount: u128)
    requires
        c0.poolers@.contains_key(account),
        c0.pool_reads(account, pool),
        c0.pools_of(account).contains_key(pool),
        amount <= c0.shares_of(account, pool),
        c0.pool_writes(account, pool),
        c0.farm_writes(account, pool),
        c0.farmed_of(account, pool) + amount <= u128::MAX,
        Contract::pool_set_through_copy(c0, c1, account, pool, (c0.shares_of(account, pool) - amount) as u128),
        Contract::farm_set(c0, c1, account, pool, (c0.farmed_of(account, pool) + amount) as u128),
    ensures
        c1.farmers@.contains_key(account),
        c1.poolers@.contains_key(account),
        c1.farm_reads(account, pool),
        c1.farm_writes(account, pool),
        c1.pool_writes(account, pool),
        amount <= c1.farmed_of(account, pool),
        c1.shares_of(account, pool) + amount <= u128::MAX,
        Contract::farm_set_through_copy(c1, c2, account, pool, (c1.farmed_of(account, pool) - amount) as u128)
            && Contract::pool_set(c1, c2, account, pool, (c1.shares_of(account, pool) + amount) as u128)
            ==> c2.shares_of(account, pool) == c0.shares_of(account, pool) && c2.farmed_of(account, pool)
            == c0.farmed_of(account, pool),
{
    let fm = c0.farm_map(account);
    let t = map_slots(c0.farm_slots@, fm, account);
    let fn0 = map_len(fm);
    let f0 = c0.farmed_of(account, pool);
    let f1 = (f0 + amount) as u128;
    lemma_write_then_write(t, fn0, pool, f1, f0);
    lemma_restored_reading(t, fn0, pool, fn0, pool);
    assert(c1.farm_map(account) == Some(c1.farmers@[account].farms));
    assert(map_slots(c1.farm_slots@, c1.farm_map(account), account) == written(t, fn0, pool, f1));
    assert(c1.farmed_of(account, pool) == f1);

    let h = c0.poolers@[account].pools;
    let s = slots_at(c0.pool_slots@, h.owner@);
    let n = h.len as nat;
    let v0 = c0.shares_of(account, pool);
    let v1 = (v0 - amount) as u128;
    assert(s.index.contains_key(pool));
    lemma_write_then_write(s, n, pool, v1, v0);
    lemma_restored_reading(s, n, pool, n, pool);
    assert(c1.pool_map(account) == c0.pool_map(account));
    assert(c1.shares_of(account, pool) == v1);
    if Contract::farm_set_through_copy(c1, c2, account, pool, (c1.farmed_of(account, pool) - amount) as u128)
        && Contract::pool_set(c1, c2, account, pool, (c1.shares_of(account, pool) + amount) as u128) {
        assert(c2.farm_map(account) == c1.farm_map(account));
        assert(c2.pool_map(account) == Some(c2.poolers@[account].pools));
    }
}

/// On a clean token map, a balance listing shows each token once, with the
/// balance it reads, and shows every token the account reads.
pub proof fn balance_listing_is_complete(c: Contract, account: Seq<char>)
    requires
        c.tokens_clean(account),
    ensures
        forall|i: int, j: int|
            0 <= i < c.token_listing(account).len() && 0 <= j < c.token_listing(account).len() && i != j
                ==> #[trigger] c.token_listing(account)[i].0 != #[trigger] c.token_listing(account)[j].0,
        forall|i: int|
            0 <= i < c.token_listing(account).len() ==> c.tokens_of(account).contains_key(
                #[trigger] c.token_listing(account)[i].0,
            ) && c.tokens_of(account)[c.token_listing(account)[i].0] == c.token_listing(account)[i].1,
        forall|t: Seq<char>|
            #[trigger] c.tokens_of(account).contains_key(t) ==> exists|i: int|
                0 <= i < c.token_listing(account).len() && c.token_listing(account)[i].0 == t,
{
    let s = map_slots(c.token_slots@, c.token_map(account), account);
    let n = map_len(c.token_map(account));
    lemma_clean_listing(s, n);
    assert(listed(s, n).len() == n);
    assert forall|t: Seq<char>| #[trigger] c.tokens_of(account).contains_key(t) implies exists|i: int|
        0 <= i < c.token_listing(account).len() && c.token_listing(account)[i].0 == t by {
        let i = s.index[t] as int;
        assert(c.token_listing(account) == listed(s, n));
        assert(visible(s, n).contains_key(t));
        assert(0 <= i < n);
        assert(listed(s, n)[i].0 == t);
    }
}

/// After any accepted stake, unstaking without an amount refunds the whole
/// stake, including what was staked before.
pub proof fn unstake_all_refunds_stake(current: u128, deposit: u128)
    requires
        stake_answer(current, deposit) is Some,
        current + stake_answer(current, deposit)->0 <= u128::MAX,
    ensures
        ({
            let total = (current + stake_answer(current, deposit)->0) as u128;
            unstake_answer(total, None) == Some(Unstaked { amount: total, refund: Some(total) })
        }),
{
}

/// `account` holds `_near` somewhere.
pub open spec fn holds_near(account: Seq<char>) -> bool {
    exists|i: int| 0 <= i && i + 5 <= account.len() && #[trigger] account.subrange(i, i + 5) == near_suffix()
}

/// A stake listing reads each stake-list key back as the account that
/// staked under it, for every account that does not itself hold `_near`.
pub proof fn stake_key_lists_its_account(account: Seq<char>)
    requires
        !holds_near(account),
    ensures
        listed_account(stake_key(account)) == account,
    decreases account.len(),
{
    let n = near_suffix();
    let s = account + n;
    assert(s == stake_key(account));
    if account.len() == 0 {
        assert(s =~= n);
        assert(s.subrange(0, 5) =~= n);
        assert(s.subrange(5, 5) =~= Seq::<char>::empty());
        let e = Seq::<char>::empty();
        assert(replace_all(e, n, e) == e);
        assert(replace_all(s, n, e) == e + replace_all(s.subrange(5, 5), n, e));
        assert(e + e =~= e);
    } else {
        assert(s.subrange(0, 5) != n) by {
            if s.subrange(0, 5) == n {
                if account.len() >= 5 {
                    assert(account.subrange(0int, 0int + 5) =~= s.subrange(0, 5));
                    assert(holds_near(account));
                } else {
                    let k = account.len() as int;
                    assert(s[k] == '_');
                    assert(s.subrange(0, 5)[k] == s[k]);
                    assert(k == 1 || k == 2 || k == 3 || k == 4);
                    assert(n[1] == 'n' && n[2] == 'e' && n[3] == 'a' && n[4] == 'r');
                }
            }
        }
        let rest = account.drop_first();
        assert(!holds_near(rest)) by {
            if holds_near(rest) {
                let i = choose|i: int| 0 <= i && i + 5 <= rest.len() && #[trigger] rest.subrange(i, i + 5) == n;
                assert(account.subrange(i + 1, (i + 1) + 5) =~= rest.subrange(i, i + 5));
                assert(holds_near(account));
            }
        }
        stake_key_lists_its_account(rest);
        let e = Seq::<char>::empty();
        assert(s.subrange(1, s.len() as int) =~= rest + n);
        assert(replace_all(s, n, e) == seq![s[0]] + replace_all(s.subrange(1, s.len() as int), n, e));
        assert(seq![s[0]] + rest =~= account);
    }
}

/// A pool token ID is `:` followed by the pool ID, which parsing gives back.
pub proof fn pool_token_id_round_trip(pool: Seq<char>)
    ensures
        token_pool_id(seq![':'] + pool) == Some(pool),
{
    assert((seq![':'] + pool).drop_first() =~= pool);
}

/// A seed ID is the exchange and the pool ID joined by `@`; when neither
/// holds `@` and the pool ID is not empty, parsing gives the pool ID back.
pub proof fn seed_id_round_trip(exchange: Seq<char>, pool: Seq<char>)
    requires
        !exchange.contains('@'),
        !pool.contains('@'),
        pool.len() > 0,
    ensures
        seed_pool_id(exchange + seq!['@'] + pool) == Some(pool),
{
    let s = exchange + seq!['@'] + pool;
    let n = exchange.len() as int;
    assert(s[n] == '@');
    assert forall|j: int| 0 <= j < s.len() && #[trigger] s[j] == '@' implies j == n by {
        if j < n {
            assert(exchange[j] == s[j]);
        } else if j > n {
            assert(pool[j - n - 1] == s[j]);
        }
    }
    assert(sole_separator(s, n));
    let k = choose|i: int| sole_separator(s, i) && i + 1 < s.len();
    assert(s[k] == '@');
    assert(s.subrange(n + 1, s.len() as int) =~= pool);
}

/// One chain of a liquidity removal: the exchange withdraws `token` to
/// this contract, and this contract then credits that same token to
/// `account`.
pub open spec fn withdraws_then_credits(chain: Seq<CrossCallView>, account: Seq<char>, token: Seq<char>) -> bool {
    &&& chain.len() == 2
    &&& chain[0].receiver == ReceiverView::Account(REF_CONTRACT@)
    &&& chain[0].call matches CallView::Withdraw { token_id, .. } && token_id == token
    &&& chain[1].receiver == ReceiverView::CurrentAccount
    &&& chain[1].call == CallView::WithdrawCallback { account_id: account, token_id: token }
}

/// A liquidity removal runs three chains side by side: the removal of
/// `shares` from pool `pool_id`, after which this contract hears back for
/// `account` and that pool; then one chain for `token1` and one for
/// `token2`, in that order, each withdrawing its token from the exchange and
/// crediting that same token to `account`. So each token is withdrawn and
/// credited exactly once, and never credited under the other token.
pub proof fn removal_credits_each_withdrawn_token(
    account: Seq<char>,
    min_amounts: Seq<u128>,
    pool_id: u64,
    shares: u128,
    token1: Seq<char>,
    token2: Seq<char>,
)
    ensures
        ({
            let c = remove_liquidity_calls(account, min_amounts, pool_id, shares, token1, token2);
            &&& c.len() == 3
            &&& c[0].len() == 2
            &&& c[0][0].receiver == ReceiverView::Account(REF_CONTRACT@)
            &&& c[0][0].call == CallView::RemoveLiquidity { min_amounts, pool_id, shares }
            &&& c[0][1].receiver == ReceiverView::CurrentAccount
            &&& c[0][1].call == CallView::RemoveLiquidityCallback {
                account_id: account,
                pool_id: decimal_text(pool_id as nat),
                shares,
            }
            &&& withdraws_then_credits(c[1], account, token1)
            &&& withdraws_then_credits(c[2], account, token2)
        }),
{
}

/// A liquidity deposit is one chain: `amounts[0]` of `token1` and
/// `amounts[1]` of `token2` go to the exchange, the exchange puts those same
/// amounts into pool `pool_id`, and this contract then hears back for
/// `account` with the pool, the amounts and the tokens in the same order.
pub proof fn deposit_sends_each_amount_of_its_token(
    account: Seq<char>,
    pool_id: u64,
    amounts: Seq<u128>,
    token1: Seq<char>,
    token2: Seq<char>,
)
    requires
        amounts.len() >= 2,
    ensures
        ({
            let c = add_liquidity_calls(account, pool_id, amounts, token1, token2);
            &&& c.len() == 1
            &&& c[0].len() == 4
            &&& c[0][0].receiver == ReceiverView::Account(token1)
            &&& c[0][0].call matches CallView::FtTransferCall { receiver_id, amount, .. } && receiver_id
                == REF_CONTRACT@ && amount == amounts[0]
            &&& c[0][1].receiver == ReceiverView::Account(token2)
            &&& c[0][1].call matches CallView::FtTransferCall { receiver_id, amount, .. } && receiver_id
                == REF_CONTRACT@ && amount == amounts[1]
            &&& c[0][2].receiver == ReceiverView::Account(REF_CONTRACT@)
            &&& c[0][2].call == CallView::AddLiquidity { pool_id, amounts }
            &&& c[0][3].receiver == ReceiverView::CurrentAccount
            &&& c[0][3].call == CallView::AddLiquidityCallback {
                account_id: account,
                pool_id: decimal_text(pool_id as nat),
                amounts,
                token1,
                token2,
            }
        }),
{
}

/// A payout has the token contract `token` transfer `amount`, no more and
/// no less, to `receiver`, with one yoctoNEAR attached.
pub proof fn payout_sends_the_amount_to_the_receiver(token: Seq<char>, receiver: Seq<char>, amount: u128)
    ensures
        ({
            let c = token_payout(token, receiver, amount);
            &&& c.len() == 1
            &&& c[0].len() == 1
            &&& c[0][0].receiver == ReceiverView::Account(token)
            &&& c[0][0].call == CallView::FtTransfer { receiver_id: receiver, amount }
            &&& c[0][0].deposit == DEPOSIT_YOCTO
        }),
{
}

/// Farming sends `amount` of the pool token `token_id` from the exchange to
/// the farm, and this contract then hears back with that same amount, for
/// `account` and the pool.
pub proof fn farming_moves_the_amount_it_records(account: Seq<char>, amount: u128, token_id: Seq<char>, pool: Seq<char>)
    ensures
        ({
            let c = farm_transfer_calls(account, amount, token_id, pool);
            &&& c.len() == 1
            &&& c[0].len() == 2
            &&& c[0][0].receiver == ReceiverView::Account(REF_CONTRACT@)
            &&& c[0][0].call matches CallView::MftTransferCall { amount: sent, receiver_id, token_id: t, .. } && sent
                == amount && receiver_id == REF_FARM_CONTRACT@ && t == token_id
            &&& c[0][1].receiver == ReceiverView::CurrentAccount
            &&& c[0][1].call == CallView::MftTransferCallback { amount, pool_id: pool, account_id: account }
        }),
{
}

/// Unfarming withdraws `amount` of the seed from the farm, and this
/// contract then hears back with that same amount, for `account` and the
/// pool.
pub proof fn unfarming_moves_the_amount_it_records(account: Seq<char>, seed_id: Seq<char>, amount: u128, pool: Seq<char>)
    ensures
        ({
            let c = unfarm_calls(account, seed_id, amount, pool);
            &&& c.len() == 1
            &&& c[0].len() == 2
            &&& c[0][0].receiver == ReceiverView::Account(REF_FARM_CONTRACT@)
            &&& c[0][0].call matches CallView::UnlockAndWithdrawSeed { seed_id: sd, withdraw_amount, .. } && sd
                == seed_id && withdraw_amount == amount
            &&& c[0][1].receiver == ReceiverView::CurrentAccount
            &&& c[0][1].call == CallView::UnlockAndWithdrawSeedCallback { amount, pool_id: pool, account_id: account }
        }),
{
}

/// How many entries a stake listing over `n` keys returns: from position
/// `from` (the first key when no start is given), every remaining key but at
/// most `limit`, and at most 50 when no limit is given.
pub proof fn stake_listing_window(n: nat, from: usize, limit: u64)
    ensures
        window_start(None) == 0,
        window_start(Some(from as u128)) == from,
        window_len(n as int, None, None) == if n <= 50 {
            n as int
        } else {
            50
        },
        window_len(n as int, Some(from as u128), None) == if from >= n {
            0
        } else if n - from <= 50 {
            n - from
        } else {
            50
        },
        limit <= usize::MAX ==> window_len(n as int, Some(from as u128), Some(limit)) == if from >= n {
            0
        } else if n - from <= limit {
            n - from
        } else {
            limit as int
        },
{
}

/// Unstaking with something staked: `Some(x)` is granted exactly when `x`
/// is at most the stake (the whole stake included), and then refunds `x`
/// and takes `x` out of the stake; `None` refunds and takes out the whole
/// stake. With nothing staked, nothing is refunded or taken.
pub proof fn unstake_refunds_what_it_takes(current: u128, x: u128)
    ensures
        current != 0 ==> (unstake_answer(current, Some(x)) is Some <==> x <= current),
        current != 0 && x <= current ==> unstake_answer(current, Some(x)) == Some(
            Unstaked { amount: x, refund: Some(x) },
        ),
        current != 0 ==> unstake_answer(current, None) == Some(Unstaked { amount: current, refund: Some(current) }),
        unstake_answer(0, Some(x)) == Some(Unstaked { amount: 0, refund: None }),
        unstake_answer(0, None) == Some(Unstaked { amount: 0, refund: None }),
{
}

/// Taking part of a stake out and then the rest refunds the whole stake in
/// two parts.
pub proof fn unstaking_in_two_parts_refunds_the_stake(current: u128, x: u128)
    requires
        x < current,
    ensures
        ({
            let first = unstake_answer(current, Some(x));
            let rest = (current - x) as u128;
            let second = unstake_answer(rest, None);
            &&& first is Some && second is Some
            &&& first->0.refund == Some(x)
            &&& second->0.refund == Some(rest)
            &&& x + rest == current
        }),
{
}

/// Staking: a staker with nothing staked pays `STORAGE_COST` out of the
/// deposit, and is refused unless the deposit exceeds it; a staker with a
/// stake adds the whole deposit. So two stakes add up to both deposits less
/// one storage cost.
pub proof fn stake_pays_storage_once(current: u128, d1: u128, d2: u128)
    ensures
        current != 0 ==> stake_answer(current, d2) == Some(d2),
        (stake_answer(0, d1) is Some) == (d1 > STORAGE_COST),
        d1 > STORAGE_COST ==> stake_answer(0, d1)->0 + STORAGE_COST == d1,
        d1 > STORAGE_COST && d1 - STORAGE_COST + d2 <= u128::MAX ==> ({
            let s1 = stake_answer(0, d1)->0;
            &&& stake_answer(s1, d2) is Some
            &&& s1 + stake_answer(s1, d2)->0 == d1 + d2 - STORAGE_COST
        }),
{
}

/// A liquidity deposit is covered exactly up to the balances: an account
/// with a record can put in its whole balance of each token, and not one
/// unit more of either; an account without a record can put in nothing.
pub proof fn deposits_are_covered_up_to_the_balances(c: Contract, account: Seq<char>, t1: Seq<char>, t2: Seq<char>, a0: u128, a1: u128)
    ensures
        c.user_balance@.contains_key(account) ==> can_pay(
            c,
            account,
            t1,
            t2,
            c.balance_of(account, t1),
            c.balance_of(account, t2),
        ),
        a0 > c.balance_of(account, t1) ==> !can_pay(c, account, t1, t2, a0, a1),
        a1 > c.balance_of(account, t2) ==> !can_pay(c, account, t1, t2, a0, a1),
        a0 <= c.balance_of(account, t1) && a1 <= c.balance_of(account, t2) && c.user_balance@.contains_key(account)
            ==> can_pay(c, account, t1, t2, a0, a1),
        !c.user_balance@.contains_key(account) ==> !can_pay(c, account, t1, t2, a0, a1),
{
}

/// On a clean token map that holds both tokens, a liquidity payment of `a0`
/// of `t1` and `a1` of `t2` leaves the account reading each of the two
/// balances less its own amount and every other token as before; the
/// caller's record, which shares that storage, reads the same.
pub proof fn liquidity_payment_debits_each_amount(
    old: Contract,
    new: Contract,
    account: Seq<char>,
    predecessor: Seq<char>,
    t1: Seq<char>,
    t2: Seq<char>,
    a0: u128,
    a1: u128,
)
    requires
        old.tokens_clean(account),
        old.tokens_of(account).contains_key(t1),
        old.tokens_of(account).contains_key(t2),
        t1 != t2,
        can_pay(old, account, t1, t2, a0, a1),
        liquidity_paid(old, new, account, predecessor, t1, t2, a0, a1),
    ensures
        new.tokens_of(account) == old.tokens_of(account).insert(t1, (old.balance_of(account, t1) - a0) as u128).insert(
            t2,
            (old.balance_of(account, t2) - a1) as u128,
        ),
        new.tokens_of(predecessor) == new.tokens_of(account),
{
    let h = old.user_balance@[account].tokens;
    let s = slots_at(old.token_slots@, h.owner@);
    let n = h.len as nat;
    let b1 = old.balance_of(account, t1);
    let b2 = old.balance_of(account, t2);
    assert(old.token_map(account) == Some(h));
    lemma_clean_write(s, n, t1, (b1 - a0) as u128);
    let s1 = written(s, n, t1, (b1 - a0) as u128);
    assert(len_after(s, n, t1) == n);
    assert(visible(s1, n).contains_key(t2) && visible(s1, n)[t2] == b2);
    lemma_clean_write(s1, n, t2, (b2 - a1) as u128);
    assert(new.token_map(predecessor) == Some(new.user_balance@[predecessor].tokens));
    if predecessor != account {
        assert(new.user_balance@.remove(predecessor).contains_key(account));
        assert(new.user_balance@.remove(predecessor)[account] == new.user_balance@[account]);
        assert(old.user_balance@.remove(predecessor)[account] == old.user_balance@[account]);
        assert(new.token_map(account) == old.token_map(account));
    }
}

} // verus!
