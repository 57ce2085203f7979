use farm_contract::calls::{Call, CrossCall, Receiver};
use farm_contract::errors::ContractError;
use farm_contract::stake::Unstaked;
use farm_contract::utils::{
    DEPOSIT_YOCTO, FT_CALL_35_TGAS, FT_CALL_45_TGAS, FT_CALL_60_TGAS, REF_CONTRACT, REF_FARM_CONTRACT, STORAGE_COST,
};
use farm_contract::Contract;

fn s(v: &str) -> String {
    v.to_string()
}

fn owned_by_alice() -> Contract {
    Contract::new(s(""), s("alice"))
}

fn credit_through_withdraw_callback(token: &str) -> Result<String, ContractError> {
    let mut c = owned_by_alice();
    c.withdraw_callback(s("bob"), s(token), Some(1))
}

#[test]
fn account_id_rules_follow_the_sdk() {
    assert_eq!(credit_through_withdraw_callback("alice"), Ok(s("OK")));
    assert_eq!(credit_through_withdraw_callback("ref-finance-101.testnet"), Ok(s("OK")));
    assert_eq!(credit_through_withdraw_callback("a_near"), Ok(s("OK")));
    assert_eq!(credit_through_withdraw_callback("a"), Err(ContractError::InvalidAccountId));
    assert_eq!(credit_through_withdraw_callback(""), Err(ContractError::InvalidAccountId));
    assert_eq!(credit_through_withdraw_callback("Alice"), Err(ContractError::InvalidAccountId));
    assert_eq!(credit_through_withdraw_callback("a..b"), Err(ContractError::InvalidAccountId));
    assert_eq!(credit_through_withdraw_callback("_ab"), Err(ContractError::InvalidAccountId));
    assert_eq!(credit_through_withdraw_callback("ab."), Err(ContractError::InvalidAccountId));
}

#[test]
fn listings_write_amounts_in_decimal() {
    let mut c = owned_by_alice();
    c.update_user_balance(s("bob"), s("zero.testnet"), 0);
    c.update_user_balance(s("bob"), s("some.testnet"), 1234);
    c.update_user_balance(s("bob"), s("max.testnet"), u128::MAX);
    let rows = c.get_balance(s("bob"));
    assert_eq!(rows[0].amount, s("0"));
    assert_eq!(rows[1].amount, s("1234"));
    assert_eq!(rows[2].amount, s("340282366920938463463374607431768211455"));
}

fn minted_for_reply(reply: &str) -> Result<u128, ContractError> {
    let mut c = owned_by_alice();
    c.update_user_balance(s("bob"), s("ref.testnet"), 1);
    let t = s("ref.testnet");
    c.add_liquidity_callback(s("me.testnet"), s("bob"), s("17"), vec![0, 0], t.clone(), t, Some(s(reply)))?;
    Ok(c.get_pool(s("17"), s("bob")))
}

#[test]
fn liquidity_replies_are_read_as_decimals() {
    assert_eq!(minted_for_reply("12"), Ok(12));
    assert_eq!(minted_for_reply("+12"), Ok(12));
    assert_eq!(minted_for_reply("007"), Ok(7));
    assert_eq!(minted_for_reply(""), Err(ContractError::InvalidAmount));
    assert_eq!(minted_for_reply("+"), Err(ContractError::InvalidAmount));
    assert_eq!(minted_for_reply("-1"), Err(ContractError::InvalidAmount));
    assert_eq!(minted_for_reply("12a"), Err(ContractError::InvalidAmount));
    assert_eq!(
        minted_for_reply("340282366920938463463374607431768211456"),
        Err(ContractError::InvalidAmount)
    );
}

fn listed_key_for(staker: &str) -> Result<String, ContractError> {
    let mut c = owned_by_alice();
    c.stake(s(staker), STORAGE_COST + 1).unwrap();
    let listed = c.get_stakes(s("alice"), None, None)?;
    Ok(listed[0].key.clone())
}

#[test]
fn stake_keys_lose_every_near_suffix_when_listed() {
    assert_eq!(listed_key_for("alice"), Ok(s("alice_near")));
    assert_eq!(listed_key_for("my_near_acc"), Ok(s("my_acc_near")));
    assert_eq!(listed_key_for("bb_near"), Ok(s("bb_near")));
    assert_eq!(listed_key_for("a_near"), Err(ContractError::InvalidAccountId));
}

#[test]
fn pool_token_ids() {
    let c = owned_by_alice();
    assert_eq!(c.parse_pool_id(s(":17")), Ok(s("17")));
    assert_eq!(c.parse_pool_id(s(":")), Ok(s("")));
    assert_eq!(c.parse_pool_id(s("17")), Err(ContractError::IllegalTokenId));
    assert_eq!(c.parse_pool_id(s("")), Err(ContractError::IllegalTokenId));
}

#[test]
fn seed_ids() {
    let c = owned_by_alice();
    assert_eq!(c.parse_pool_id_from_seed_id(s("ref-finance-101.testnet@17")), Ok(s("17")));
    assert_eq!(c.parse_pool_id_from_seed_id(s("@5")), Ok(s("5")));
    assert_eq!(c.parse_pool_id_from_seed_id(s("a@b@c")), Err(ContractError::IllegalSeedId));
    assert_eq!(c.parse_pool_id_from_seed_id(s("abc@")), Err(ContractError::IllegalSeedId));
    assert_eq!(c.parse_pool_id_from_seed_id(s("abc")), Err(ContractError::IllegalSeedId));
}

#[test]
fn deposits_are_listed_in_order_as_decimals() {
    let mut c = owned_by_alice();
    c.ft_on_transfer(s("bob"), s("dai.testnet"), 25, s(""));
    c.ft_on_transfer(s("bob"), s("eth.testnet"), 7, s(""));
    assert_eq!(c.ft_on_transfer(s("bob"), s("dai.testnet"), 5, s("")), 0);
    let rows = c.get_balance(s("bob"));
    assert_eq!(rows.len(), 2);
    assert_eq!(rows[0].token_id, s("dai.testnet"));
    assert_eq!(rows[0].amount, s("30"));
    assert_eq!(rows[1].token_id, s("eth.testnet"));
    assert_eq!(rows[1].amount, s("7"));
    assert_eq!(c.get_balance(s("carol")).len(), 0);
}

#[test]
fn withdraw_undoes_deposit() {
    let mut c = owned_by_alice();
    c.update_user_balance(s("bob"), s("dai.testnet"), 10);
    c.update_user_balance(s("bob"), s("dai.testnet"), 4);
    assert_eq!(c.withdraw_balance(s("bob"), s("dai.testnet"), 4).map(|o| o.value), Ok(4));
    assert_eq!(c.token_amount(&s("bob"), &s("dai.testnet")), Some(10));
}

#[test]
fn withdrawals_that_are_not_covered_are_refused() {
    let mut c = owned_by_alice();
    assert_eq!(c.withdraw_user_balance(s("bob"), s("dai.testnet"), 0), Err(ContractError::NotEnough));
    c.update_user_balance(s("bob"), s("dai.testnet"), 10);
    assert_eq!(c.withdraw_balance(s("bob"), s("dai.testnet"), 11).map(|o| o.value), Err(ContractError::NotEnough));
    assert_eq!(c.withdraw_max(s("bob"), s("eth.testnet")).map(|o| o.value), Err(ContractError::NotEnough));
    assert_eq!(c.token_amount(&s("bob"), &s("dai.testnet")), Some(10));
}

#[test]
fn withdraw_max_takes_everything_and_keeps_the_entry() {
    let mut c = owned_by_alice();
    c.update_user_balance(s("bob"), s("dai.testnet"), 10);
    assert_eq!(c.withdraw_max(s("bob"), s("dai.testnet")).map(|o| o.value), Ok(10));
    assert_eq!(c.token_amount(&s("bob"), &s("dai.testnet")), Some(0));
    assert_eq!(c.withdraw_max(s("bob"), s("dai.testnet")).map(|o| o.value), Ok(0));
}

#[test]
fn modify_pool_is_for_the_owner_and_read_back() {
    let mut c = owned_by_alice();
    assert_eq!(c.modify_pool(s("bob"), s("bob"), s("17"), 5), Err(ContractError::NotAllowed));
    assert_eq!(c.modify_pool(s("alice"), s("bob"), s("17"), 5), Ok(0));
    assert_eq!(c.get_pool(s("17"), s("bob")), 0);
    c.add_pooler(s("bob"), s("17"), 3);
    assert_eq!(c.modify_pool(s("alice"), s("bob"), s("17"), 5), Ok(5));
    assert_eq!(c.get_pool(s("17"), s("bob")), 5);
    assert_eq!(c.modify_pool(s("alice"), s("bob"), s("18"), 9), Ok(9));
    let rows = c.get_pools(s("bob"));
    assert_eq!(rows.len(), 2);
    assert_eq!(rows[0].pool_id, s("17"));
    assert_eq!(rows[0].amount, s("5"));
    assert_eq!(rows[1].pool_id, s("18"));
    assert_eq!(rows[1].amount, s("9"));
}

#[test]
fn modify_farm_is_for_the_owner() {
    let mut c = owned_by_alice();
    assert_eq!(c.modify_farm(s("bob"), s("bob"), s("17"), 5), Err(ContractError::NotAllowed));
    assert_eq!(c.modify_farm(s("alice"), s("bob"), s("17"), 5), Ok(0));
    c.add_pooler(s("bob"), s("17"), 8);
    c.transfer_pool_to_farm(s("bob"), s("17"), 2).unwrap();
    assert_eq!(c.modify_farm(s("alice"), s("bob"), s("17"), 5), Ok(5));
    let rows = c.get_farms(s("bob"));
    assert_eq!(rows.len(), 1);
    assert_eq!(rows[0].farm_id, s("17"));
    assert_eq!(rows[0].amount, s("5"));
}

#[test]
fn removing_pool_shares() {
    let mut c = owned_by_alice();
    assert_eq!(c.add_pooler(s("bob"), s("17"), 10), 10);
    assert_eq!(c.remove_pooler(s("bob"), s("17"), 11), Err(ContractError::NotEnough));
    assert_eq!(c.remove_pooler(s("bob"), s("18"), 0), Err(ContractError::NotEnough));
    assert_eq!(c.remove_pooler(s("bob"), s("17"), 4), Ok(4));
    assert_eq!(c.get_pool(s("17"), s("bob")), 6);
}

#[test]
fn farming_and_unfarming_keep_the_shares() {
    let mut c = owned_by_alice();
    c.add_pooler(s("bob"), s("17"), 10);
    assert_eq!(c.transfer_pool_to_farm(s("bob"), s("17"), 11), Err(ContractError::NotEnoughPool));
    assert_eq!(c.transfer_farm_to_pool(s("bob"), s("17"), 1), Err(ContractError::NotEnoughFarm));
    assert_eq!(c.transfer_pool_to_farm(s("bob"), s("17"), 4), Ok(()));
    assert_eq!(c.get_pool(s("17"), s("bob")), 6);
    assert_eq!(c.farm_amount(&s("bob"), &s("17")), Some(4));
    assert_eq!(c.transfer_farm_to_pool(s("bob"), s("17"), 4), Ok(()));
    assert_eq!(c.get_pool(s("17"), s("bob")), 10);
    assert_eq!(c.farm_amount(&s("bob"), &s("17")), Some(0));
}

#[test]
fn pool_and_farm_checks() {
    let mut c = owned_by_alice();
    assert_eq!(c.assert_pool_balance(s("bob"), s("17"), 0), Err(ContractError::NotEnoughPool));
    assert_eq!(c.assert_farm_balance(s("bob"), s("17"), 0), Err(ContractError::NotEnoughFarm));
    c.add_pooler(s("bob"), s("17"), 10);
    assert_eq!(c.assert_pool_balance(s("bob"), s("17"), 10), Ok(()));
    assert_eq!(c.assert_pool_balance(s("bob"), s("18"), 0), Ok(()));
}

#[test]
fn adding_liquidity_needs_both_balances() {
    let mut c = owned_by_alice();
    let amounts = vec![5u128, 7u128];
    assert_eq!(
        c.call_add_liquidity(s("bob"), 17, amounts.clone(), s("ref.testnet"), s("wrap.testnet")).map(|o| o.value),
        Err(ContractError::NotEnough)
    );
    c.update_user_balance(s("bob"), s("ref.testnet"), 5);
    c.update_user_balance(s("bob"), s("wrap.testnet"), 6);
    assert_eq!(
        c.call_add_liquidity(s("bob"), 17, amounts.clone(), s("ref.testnet"), s("wrap.testnet")).map(|o| o.value),
        Err(ContractError::NotEnough)
    );
    c.update_user_balance(s("bob"), s("wrap.testnet"), 1);
    assert_eq!(
        c.call_add_liquidity(s("bob"), 17, amounts.clone(), s("ref.testnet"), s("wrap.testnet")).map(|o| o.value),
        Ok(amounts.clone())
    );
    c.update_user_balance(s("bob"), s("Bad"), 7);
    assert_eq!(
        c.call_add_liquidity(s("bob"), 17, amounts, s("ref.testnet"), s("Bad")).map(|o| o.value),
        Err(ContractError::InvalidAccountId)
    );
}

#[test]
fn removing_liquidity_needs_the_shares() {
    let mut c = owned_by_alice();
    assert_eq!(
        c.call_remove_liquidity(s("bob"), vec![0, 0], 17, 5, s("ref.testnet"), s("wrap.testnet")).map(|o| o.value),
        Err(ContractError::NotEnough)
    );
    c.add_pooler(s("bob"), s("17"), 5);
    assert_eq!(
        c.call_remove_liquidity(s("bob"), vec![0, 0], 17, 6, s("ref.testnet"), s("wrap.testnet")).map(|o| o.value),
        Err(ContractError::NotEnough)
    );
    assert_eq!(
        c.call_remove_liquidity(s("bob"), vec![0, 0], 17, 5, s("ref.testnet"), s("wrap.testnet")).map(|o| o.value),
        Ok(5)
    );
    assert_eq!(
        c.call_remove_liquidity(s("bob"), vec![0, 0], 17, 5, s("ref.testnet"), s("x")).map(|o| o.value),
        Err(ContractError::InvalidAccountId)
    );
}

#[test]
fn add_liquidity_callback_outcomes() {
    let mut c = owned_by_alice();
    let amounts = vec![5u128, 7u128];
    let t1 = s("ref.testnet");
    let t2 = s("wrap.testnet");
    assert_eq!(
        c.add_liquidity_callback(s("me.testnet"), s("bob"), s("17"), amounts.clone(), t1.clone(), t2.clone(), None),
        Ok(s(""))
    );
    assert_eq!(
        c.add_liquidity_callback(s("me.testnet"), s("bob"), s("17"), amounts.clone(), t1.clone(), t2.clone(), Some(s("100"))),
        Ok(s("Update data failed"))
    );
    c.update_user_balance(s("bob"), t1.clone(), 5);
    c.update_user_balance(s("bob"), t2.clone(), 6);
    assert_eq!(
        c.add_liquidity_callback(s("me.testnet"), s("bob"), s("17"), amounts.clone(), t1.clone(), t2.clone(), Some(s("x1"))),
        Err(ContractError::InvalidAmount)
    );
    assert_eq!(
        c.add_liquidity_callback(s("me.testnet"), s("bob"), s("17"), amounts.clone(), t1.clone(), t2.clone(), Some(s("100"))),
        Err(ContractError::NotEnough)
    );
    assert_eq!(c.get_pool(s("17"), s("bob")), 0);
    c.update_user_balance(s("bob"), t2.clone(), 3);
    assert_eq!(
        c.add_liquidity_callback(s("me.testnet"), s("bob"), s("17"), amounts, t1.clone(), t2.clone(), Some(s("100"))),
        Ok(s("OK"))
    );
    assert_eq!(c.get_pool(s("17"), s("bob")), 100);
    assert_eq!(c.token_amount(&s("bob"), &t1), Some(0));
    assert_eq!(c.token_amount(&s("bob"), &t2), Some(2));
    assert_eq!(c.token_amount(&s("me.testnet"), &t2), Some(2));
}

#[test]
fn add_liquidity_callback_with_one_token_twice() {
    let mut c = owned_by_alice();
    let t = s("ref.testnet");
    c.update_user_balance(s("bob"), t.clone(), 10);
    assert_eq!(
        c.add_liquidity_callback(s("bob"), s("bob"), s("3"), vec![4, 5], t.clone(), t.clone(), Some(s("+9"))),
        Ok(s("OK"))
    );
    assert_eq!(c.token_amount(&s("bob"), &t), Some(1));
    assert_eq!(c.get_pool(s("3"), s("bob")), 9);
}

#[test]
fn remove_liquidity_callback_outcomes() {
    let mut c = owned_by_alice();
    assert_eq!(c.remove_liquidity_callback(s("bob"), s("17"), 5, None), Ok(s("")));
    assert_eq!(
        c.remove_liquidity_callback(s("bob"), s("17"), 5, Some(vec![1, 2])),
        Err(ContractError::NotEnough)
    );
    c.add_pooler(s("bob"), s("17"), 8);
    assert_eq!(c.remove_liquidity_callback(s("bob"), s("17"), 5, Some(vec![1, 2])), Ok(s("OK")));
    assert_eq!(c.get_pool(s("17"), s("bob")), 3);
}

#[test]
fn withdraw_callback_outcomes() {
    let mut c = owned_by_alice();
    assert_eq!(c.withdraw_callback(s("bob"), s("ref.testnet"), None), Ok(s("")));
    assert_eq!(
        c.withdraw_callback(s("bob"), s("Ref"), Some(3)),
        Err(ContractError::InvalidAccountId)
    );
    assert_eq!(c.withdraw_callback(s("bob"), s("ref.testnet"), Some(3)), Ok(s("OK")));
    assert_eq!(c.token_amount(&s("bob"), &s("ref.testnet")), Some(3));
}

#[test]
fn farming_through_the_exchange() {
    let mut c = owned_by_alice();
    assert_eq!(c.call_mft_transfer_call(s("bob"), 5, s("17")).map(|o| o.value), Err(ContractError::IllegalTokenId));
    assert_eq!(c.call_mft_transfer_call(s("bob"), 5, s(":17")).map(|o| o.value), Err(ContractError::NotEnoughPool));
    c.add_pooler(s("bob"), s("17"), 5);
    assert_eq!(c.call_mft_transfer_call(s("bob"), 5, s(":17")).map(|o| o.value), Ok(5));
    assert_eq!(c.mft_transfer_callback(5, s("17"), s("bob"), None), Ok(s("")));
    assert_eq!(c.mft_transfer_callback(5, s("17"), s("bob"), Some(5)), Ok(s("OK")));
    assert_eq!(c.get_pool(s("17"), s("bob")), 0);
    assert_eq!(c.farm_amount(&s("bob"), &s("17")), Some(5));
    assert_eq!(c.mft_transfer_callback(1, s("17"), s("bob"), Some(5)), Err(ContractError::NotEnoughPool));

    let seed = s("ref-finance-101.testnet@17");
    assert_eq!(c.call_unlock_and_withdraw_seed(s("bob"), s("17"), 5).map(|o| o.value), Err(ContractError::IllegalSeedId));
    assert_eq!(c.call_unlock_and_withdraw_seed(s("bob"), seed.clone(), 6).map(|o| o.value), Err(ContractError::NotEnoughFarm));
    assert_eq!(c.call_unlock_and_withdraw_seed(s("bob"), seed, 5).map(|o| o.value), Ok(0));
    assert_eq!(c.unlock_and_withdraw_seed_callback(5, s("17"), s("bob"), None), Ok(s("")));
    assert_eq!(c.unlock_and_withdraw_seed_callback(5, s("17"), s("bob"), Some(true)), Ok(s("OK")));
    assert_eq!(c.get_pool(s("17"), s("bob")), 5);
    assert_eq!(c.farm_amount(&s("bob"), &s("17")), Some(0));
    assert_eq!(
        c.unlock_and_withdraw_seed_callback(1, s("17"), s("bob"), Some(true)),
        Err(ContractError::NotEnoughFarm)
    );
}

#[test]
fn rewards_are_for_the_owner() {
    let c = owned_by_alice();
    assert_eq!(c.call_claim_reward_by_seed(s("alice"), s("x@1")).map(|o| o.value), Ok(0));
    assert_eq!(c.call_claim_reward_by_seed(s("bob"), s("x@1")).map(|o| o.value), Err(ContractError::NotAllowed));
    assert_eq!(c.call_withdraw_reward(s("alice"), s("ref.testnet")).map(|o| o.value), Ok(0));
    assert_eq!(c.call_withdraw_reward(s("bob"), s("ref.testnet")).map(|o| o.value), Err(ContractError::NotAllowed));
}

#[test]
fn owner_changes_are_for_the_owner() {
    let mut c = owned_by_alice();
    assert_eq!(c.set_owner_id(s("bob"), s("bob")), Err(ContractError::NotAllowed));
    assert_eq!(c.get_owner_id(), s("alice"));
    assert_eq!(c.assert_owner(&s("alice")), Ok(()));
    assert_eq!(c.set_owner_id(s("alice"), s("bob")), Ok(()));
    assert_eq!(c.assert_owner(&s("alice")), Err(ContractError::NotAllowed));
}

#[test]
fn first_stake_pays_storage() {
    let mut c = owned_by_alice();
    assert_eq!(c.stake(s("bob"), STORAGE_COST), Err(ContractError::StakeBelowStorageCost));
    assert_eq!(c.stake(s("bob"), STORAGE_COST + 3), Ok(3));
    assert_eq!(c.stake(s("bob"), 4), Ok(4));
    let st = c.get_stake_for_account(s("bob"));
    assert_eq!(st.key, s("bob_near"));
    assert_eq!(st.amount, 7);
}

#[test]
fn unstaking() {
    let mut c = owned_by_alice();
    assert_eq!(c.unstake(s("bob"), Some(5)), Ok(Unstaked { amount: 0, refund: None }));
    c.stake(s("bob"), STORAGE_COST + 10).unwrap();
    assert_eq!(c.unstake(s("bob"), Some(11)), Err(ContractError::NotEnough));
    assert_eq!(c.unstake(s("bob"), Some(4)), Ok(Unstaked { amount: 4, refund: Some(4) }));
    assert_eq!(c.unstake(s("bob"), None), Ok(Unstaked { amount: 6, refund: Some(6) }));
    assert_eq!(c.get_stake_for_account(s("bob")).amount, 0);
    assert_eq!(c.unstake(s("bob"), None), Ok(Unstaked { amount: 0, refund: None }));
    assert_eq!(c.stake(s("bob"), 5), Err(ContractError::StakeBelowStorageCost));
}

#[test]
fn stake_listing_windows() {
    let mut c = owned_by_alice();
    c.stake(s("aa"), STORAGE_COST + 1).unwrap();
    c.stake(s("bb"), STORAGE_COST + 2).unwrap();
    c.stake(s("cc"), STORAGE_COST + 3).unwrap();
    assert!(matches!(c.get_stakes(s("bob"), None, None), Err(ContractError::NotAllowed)));
    let all = c.get_stakes(s("alice"), None, None).unwrap();
    assert_eq!(all.len(), 3);
    assert_eq!(all[2].key, s("cc_near"));
    assert_eq!(all[2].amount, 3);
    let window = c.get_stakes(s("alice"), Some(1), Some(1)).unwrap();
    assert_eq!(window.len(), 1);
    assert_eq!(window[0].key, s("bb_near"));
    assert_eq!(window[0].amount, 2);
    assert_eq!(c.get_stakes(s("alice"), Some(5), None).unwrap().len(), 0);
    assert_eq!(c.get_stakes(s("alice"), Some(1), Some(0)).unwrap().len(), 0);
}

#[test]
fn stake_listing_reads_keys_back_as_accounts() {
    let mut c = owned_by_alice();
    c.stake(s("my_near_acc"), STORAGE_COST + 1).unwrap();
    let listed = c.get_stakes(s("alice"), None, None).unwrap();
    assert_eq!(listed[0].key, s("my_acc_near"));
    assert_eq!(listed[0].amount, 0);
    c.stake(s("a_near"), STORAGE_COST + 1).unwrap();
    assert!(matches!(c.get_stakes(s("alice"), None, None), Err(ContractError::InvalidAccountId)));
}

#[test]
fn withdrawals_have_the_token_contract_pay_the_caller() {
    let mut c = owned_by_alice();
    c.update_user_balance(s("bob"), s("dai.testnet"), 10);
    let o = c.withdraw_balance(s("bob"), s("dai.testnet"), 4).unwrap();
    assert_eq!(
        o.calls,
        vec![vec![CrossCall {
            receiver: Receiver::Account(s("dai.testnet")),
            call: Call::FtTransfer { receiver_id: s("bob"), amount: 4 },
            deposit: DEPOSIT_YOCTO,
            gas: Some(FT_CALL_35_TGAS),
        }]]
    );
    let o = c.withdraw_max(s("bob"), s("dai.testnet")).unwrap();
    assert_eq!(o.value, 6);
    assert_eq!(
        o.calls,
        vec![vec![CrossCall {
            receiver: Receiver::Account(s("dai.testnet")),
            call: Call::FtTransfer { receiver_id: s("bob"), amount: 6 },
            deposit: DEPOSIT_YOCTO,
            gas: Some(FT_CALL_35_TGAS),
        }]]
    );
}

#[test]
fn adding_liquidity_sends_one_chain() {
    let mut c = owned_by_alice();
    c.update_user_balance(s("bob"), s("ref.testnet"), 5);
    c.update_user_balance(s("bob"), s("wrap.testnet"), 7);
    let o = c.call_add_liquidity(s("bob"), 17, vec![5, 7], s("ref.testnet"), s("wrap.testnet")).unwrap();
    assert_eq!(
        o.calls,
        vec![vec![
            CrossCall {
                receiver: Receiver::Account(s("ref.testnet")),
                call: Call::FtTransferCall { receiver_id: s(REF_CONTRACT), amount: 5, msg: s("") },
                deposit: DEPOSIT_YOCTO,
                gas: Some(FT_CALL_35_TGAS),
            },
            CrossCall {
                receiver: Receiver::Account(s("wrap.testnet")),
                call: Call::FtTransferCall { receiver_id: s(REF_CONTRACT), amount: 7, msg: s("") },
                deposit: DEPOSIT_YOCTO,
                gas: Some(FT_CALL_35_TGAS),
            },
            CrossCall {
                receiver: Receiver::Account(s(REF_CONTRACT)),
                call: Call::AddLiquidity { pool_id: 17, amounts: vec![5, 7] },
                deposit: STORAGE_COST,
                gas: None,
            },
            CrossCall {
                receiver: Receiver::CurrentAccount,
                call: Call::AddLiquidityCallback {
                    account_id: s("bob"),
                    pool_id: s("17"),
                    amounts: vec![5, 7],
                    token1: s("ref.testnet"),
                    token2: s("wrap.testnet"),
                },
                deposit: 0,
                gas: None,
            },
        ]]
    );
}

#[test]
fn removing_liquidity_sends_three_chains() {
    let mut c = owned_by_alice();
    c.add_pooler(s("bob"), s("17"), 5);
    let o = c
        .call_remove_liquidity(s("bob"), vec![1, 2], 17, 5, s("ref.testnet"), s("wrap.testnet"))
        .unwrap();
    assert_eq!(o.calls.len(), 3);
    assert_eq!(
        o.calls[0],
        vec![
            CrossCall {
                receiver: Receiver::Account(s(REF_CONTRACT)),
                call: Call::RemoveLiquidity { min_amounts: vec![1, 2], pool_id: 17, shares: 5 },
                deposit: DEPOSIT_YOCTO,
                gas: None,
            },
            CrossCall {
                receiver: Receiver::CurrentAccount,
                call: Call::RemoveLiquidityCallback { account_id: s("bob"), pool_id: s("17"), shares: 5 },
                deposit: 0,
                gas: None,
            },
        ]
    );
    assert_eq!(
        o.calls[2],
        vec![
            CrossCall {
                receiver: Receiver::Account(s(REF_CONTRACT)),
                call: Call::Withdraw { token_id: s("wrap.testnet"), amount: 0, unregister: false },
                deposit: DEPOSIT_YOCTO,
                gas: Some(FT_CALL_60_TGAS),
            },
            CrossCall {
                receiver: Receiver::CurrentAccount,
                call: Call::WithdrawCallback { account_id: s("bob"), token_id: s("wrap.testnet") },
                deposit: 0,
                gas: None,
            },
        ]
    );
}

#[test]
fn farm_calls() {
    let mut c = owned_by_alice();
    c.add_pooler(s("bob"), s("17"), 5);
    let o = c.call_mft_transfer_call(s("bob"), 5, s(":17")).unwrap();
    assert_eq!(
        o.calls,
        vec![vec![
            CrossCall {
                receiver: Receiver::Account(s(REF_CONTRACT)),
                call: Call::MftTransferCall {
                    amount: 5,
                    msg: s("\"Free\""),
                    receiver_id: s(REF_FARM_CONTRACT),
                    token_id: s(":17"),
                },
                deposit: DEPOSIT_YOCTO,
                gas: Some(FT_CALL_60_TGAS),
            },
            CrossCall {
                receiver: Receiver::CurrentAccount,
                call: Call::MftTransferCallback { amount: 5, pool_id: s("17"), account_id: s("bob") },
                deposit: 0,
                gas: None,
            },
        ]]
    );
    c.mft_transfer_callback(5, s("17"), s("bob"), Some(5)).unwrap();
    let o = c.call_unlock_and_withdraw_seed(s("bob"), s("ref-finance-101.testnet@17"), 3).unwrap();
    assert_eq!(
        o.calls,
        vec![vec![
            CrossCall {
                receiver: Receiver::Account(s(REF_FARM_CONTRACT)),
                call: Call::UnlockAndWithdrawSeed {
                    seed_id: s("ref-finance-101.testnet@17"),
                    unlock_amount: 0,
                    withdraw_amount: 3,
                },
                deposit: DEPOSIT_YOCTO,
                gas: Some(FT_CALL_45_TGAS),
            },
            CrossCall {
                receiver: Receiver::CurrentAccount,
                call: Call::UnlockAndWithdrawSeedCallback { amount: 3, pool_id: s("17"), account_id: s("bob") },
                deposit: 0,
                gas: None,
            },
        ]]
    );
    let o = c.call_claim_reward_by_seed(s("alice"), s("ref-finance-101.testnet@17")).unwrap();
    assert_eq!(
        o.calls,
        vec![vec![CrossCall {
            receiver: Receiver::Account(s(REF_FARM_CONTRACT)),
            call: Call::ClaimRewardBySeed { seed_id: s("ref-finance-101.testnet@17") },
            deposit: 0,
            gas: Some(FT_CALL_35_TGAS),
        }]]
    );
    let o = c.call_withdraw_reward(s("alice"), s("ref.fakes.testnet")).unwrap();
    assert_eq!(
        o.calls,
        vec![vec![CrossCall {
            receiver: Receiver::Account(s(REF_FARM_CONTRACT)),
            call: Call::WithdrawReward { token_id: s("ref.fakes.testnet") },
            deposit: 0,
            gas: Some(FT_CALL_45_TGAS),
        }]]
    );
}

#[test]
fn farming_a_pool_without_an_entry_is_not_counted_by_the_record() {
    let mut c = owned_by_alice();
    c.add_pooler(s("bob"), s("17"), 3);
    assert_eq!(c.transfer_pool_to_farm(s("bob"), s("18"), 0), Ok(()));
    let rows = c.get_pools(s("bob"));
    assert_eq!(rows.len(), 1);
    assert_eq!(rows[0].pool_id, s("17"));
    assert!(!c.pool_readable(&s("bob"), &s("18")));
    assert_eq!(c.farm_amount(&s("bob"), &s("18")), Some(0));
    c.add_pooler(s("bob"), s("19"), 4);
    assert!(c.pool_readable(&s("bob"), &s("18")));
    assert_eq!(c.get_pool(s("18"), s("bob")), 4);
    assert_eq!(c.get_pool(s("19"), s("bob")), 4);
    let rows = c.get_pools(s("bob"));
    assert_eq!(rows.len(), 2);
    assert_eq!(rows[1].pool_id, s("19"));
}

#[test]
fn unfarming_a_farm_without_an_entry_is_not_counted_by_the_record() {
    let mut c = owned_by_alice();
    c.add_pooler(s("bob"), s("17"), 5);
    c.transfer_pool_to_farm(s("bob"), s("17"), 2).unwrap();
    assert_eq!(c.transfer_farm_to_pool(s("bob"), s("18"), 0), Ok(()));
    let farms = c.get_farms(s("bob"));
    assert_eq!(farms.len(), 1);
    assert_eq!(farms[0].farm_id, s("17"));
    assert!(!c.farm_readable(&s("bob"), &s("18")));
    assert_eq!(c.get_pool(s("18"), s("bob")), 0);
    assert_eq!(c.get_pools(s("bob")).len(), 2);
}

#[test]
fn liquidity_payments_are_shared_with_the_caller_record() {
    let mut c = owned_by_alice();
    let t1 = s("ref.testnet");
    let t2 = s("wrap.testnet");
    c.update_user_balance(s("bob"), t1.clone(), 5);
    c.update_user_balance(s("bob"), t2.clone(), 9);
    assert_eq!(
        c.add_liquidity_callback(s("me.testnet"), s("bob"), s("17"), vec![5, 7], t1.clone(), t2.clone(), Some(s("1"))),
        Ok(s("OK"))
    );
    c.update_user_balance(s("bob"), t2.clone(), 5);
    assert_eq!(c.token_amount(&s("bob"), &t2), Some(7));
    assert_eq!(c.token_amount(&s("me.testnet"), &t2), Some(7));
    c.update_user_balance(s("bob"), s("dai.testnet"), 1);
    assert_eq!(c.get_balance(s("bob")).len(), 3);
    assert_eq!(c.get_balance(s("me.testnet")).len(), 2);
    assert!(!c.token_readable(&s("me.testnet"), &s("dai.testnet")));
}

#[test]
fn a_token_first_paid_in_a_liquidity_callback_is_listed_for_the_caller_only() {
    let mut c = owned_by_alice();
    let t1 = s("ref.testnet");
    let t2 = s("wrap.testnet");
    c.update_user_balance(s("bob"), t1.clone(), 5);
    assert_eq!(
        c.add_liquidity_callback(s("me.testnet"), s("bob"), s("17"), vec![2, 0], t1.clone(), t2.clone(), Some(s("1"))),
        Ok(s("OK"))
    );
    let own = c.get_balance(s("bob"));
    assert_eq!(own.len(), 1);
    assert_eq!(own[0].amount, s("3"));
    let shared = c.get_balance(s("me.testnet"));
    assert_eq!(shared.len(), 2);
    assert_eq!(shared[1].token_id, t2);
    assert_eq!(shared[1].amount, s("0"));
    assert!(!c.token_readable(&s("bob"), &t2));
}

#[test]
fn two_pool_credits_read_as_one_credit_of_the_sum() {
    let mut twice = owned_by_alice();
    twice.add_pooler(s("bob"), s("17"), 1);
    let mut once = owned_by_alice();
    once.add_pooler(s("bob"), s("17"), 1);
    assert_eq!(twice.add_pooler(s("bob"), s("18"), 4), 4);
    assert_eq!(twice.add_pooler(s("bob"), s("18"), 6), 6);
    assert_eq!(once.add_pooler(s("bob"), s("18"), 10), 10);
    assert_eq!(twice.get_pool(s("18"), s("bob")), once.get_pool(s("18"), s("bob")));
    assert_eq!(twice.get_pool(s("17"), s("bob")), once.get_pool(s("17"), s("bob")));
    let a = twice.get_pools(s("bob"));
    let b = once.get_pools(s("bob"));
    assert_eq!(a.len(), b.len());
    for (x, y) in a.iter().zip(b.iter()) {
        assert_eq!((&x.pool_id, &x.amount), (&y.pool_id, &y.amount));
    }
}

#[test]
fn a_pool_debit_undoes_a_credit() {
    let mut c = owned_by_alice();
    c.add_pooler(s("bob"), s("17"), 3);
    c.add_pooler(s("carol"), s("17"), 2);
    c.add_pooler(s("bob"), s("18"), 5);
    assert_eq!(c.remove_pooler(s("bob"), s("18"), 5), Ok(5));
    assert_eq!(c.get_pool(s("17"), s("bob")), 3);
    assert_eq!(c.get_pool(s("18"), s("bob")), 0);
    assert_eq!(c.get_pool(s("17"), s("carol")), 2);
    c.add_pooler(s("bob"), s("17"), 7);
    assert_eq!(c.remove_pooler(s("bob"), s("17"), 7), Ok(7));
    assert_eq!(c.get_pool(s("17"), s("bob")), 3);
}

#[test]
fn a_withdrawal_undoes_a_deposit_for_every_reader_of_shared_balances() {
    let mut c = owned_by_alice();
    let t1 = s("ref.testnet");
    let t2 = s("wrap.testnet");
    c.update_user_balance(s("bob"), t1.clone(), 5);
    c.update_user_balance(s("bob"), t2.clone(), 9);
    c.add_liquidity_callback(s("me.testnet"), s("bob"), s("17"), vec![1, 1], t1.clone(), t2.clone(), Some(s("1")))
        .unwrap();
    c.update_user_balance(s("bob"), t2.clone(), 4);
    assert_eq!(c.withdraw_user_balance(s("bob"), t2.clone(), 4), Ok(()));
    assert_eq!(c.token_amount(&s("bob"), &t2), Some(8));
    assert_eq!(c.token_amount(&s("me.testnet"), &t2), Some(8));
    assert_eq!(c.token_amount(&s("me.testnet"), &t1), Some(4));
}
