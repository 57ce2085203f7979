use farm_contract::stake::Stake;
use farm_contract::utils::{DEFAULT_OWNER, STORAGE_COST};
use farm_contract::Contract;

const ATTACHED_DEPOSIT: u128 = 1_000_000_000_000_000_000_000_000;
const ATTACHED_DEPOSIT2: u128 = 2_000_000_000_000_000_000_000_000;
const UNSTAKE_BALANCE: u128 = 500_000_000_000_000_000_000_000;

fn alice() -> String {
    "alice".to_string()
}

fn bob() -> String {
    "bob".to_string()
}

fn setup_contract() -> Contract {
    Contract::new("".to_string(), alice())
}

#[test]
fn get_default_greeting() {
    let contract = Contract::default();
    assert_eq!(contract.get_greeting(), "Hello".to_string());
}

#[test]
fn set_then_get_greeting() {
    let mut contract = Contract::default();
    contract.set_greeting("howdy".to_string());
    assert_eq!(contract.get_greeting(), "howdy".to_string());
}

#[test]
fn get_default_owner() {
    let contract = Contract::default();
    assert_eq!(contract.get_owner_id(), DEFAULT_OWNER.to_string());
}

#[test]
fn set_owner_id() {
    let mut contract = setup_contract();
    contract
        .set_owner_id(alice(), "andreapn1709.testnet".to_string())
        .unwrap();
    assert_eq!(contract.get_owner_id(), DEFAULT_OWNER.to_string());
}

#[test]
fn stake_1() {
    let mut contract = setup_contract();
    contract.stake(alice(), ATTACHED_DEPOSIT).unwrap();
    let stakes: Vec<Stake> = contract.get_stakes(alice(), None, None).unwrap();
    assert_eq!(stakes.len(), 1);
}

#[test]
fn stake_2() {
    let mut contract = setup_contract();
    contract.stake(alice(), ATTACHED_DEPOSIT).unwrap();
    contract.stake(bob(), ATTACHED_DEPOSIT2).unwrap();
    let stakes: Vec<Stake> = contract.get_stakes(alice(), None, None).unwrap();
    assert_eq!(stakes.len(), 2);
}

#[test]
fn stake_3() {
    let mut contract = setup_contract();
    contract.stake(alice(), ATTACHED_DEPOSIT).unwrap();
    let stakes: Vec<Stake> = contract.get_stakes(alice(), None, None).unwrap();
    let key = alice() + "_near";
    for n in stakes.iter() {
        if n.key == key {
            assert_eq!(n.amount, ATTACHED_DEPOSIT - STORAGE_COST);
        }
    }
}

#[test]
fn unstake_1() {
    let mut contract = setup_contract();
    contract.stake(alice(), ATTACHED_DEPOSIT).unwrap();
    let unstake_amount = contract.unstake(alice(), None).unwrap();
    assert_eq!(unstake_amount.amount, ATTACHED_DEPOSIT - STORAGE_COST);
}

#[test]
fn unstake_2() {
    let mut contract = setup_contract();
    contract.stake(alice(), ATTACHED_DEPOSIT).unwrap();
    contract.unstake(alice(), Some(UNSTAKE_BALANCE)).unwrap();
    let stakes: Vec<Stake> = contract.get_stakes(alice(), None, None).unwrap();
    let key = alice() + "_near";
    for n in stakes.iter() {
        if n.key == key {
            assert_eq!(
                n.amount,
                ATTACHED_DEPOSIT - STORAGE_COST - UNSTAKE_BALANCE
            );
        }
    }
}
