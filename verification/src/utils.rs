use vstd::prelude::*;

verus! {

/// The greeting a fresh contract holds.
pub const DEFAULT_MESSAGE: &'static str = "Hello";

/// The owner a default contract has.
pub const DEFAULT_OWNER: &'static str = "andreapn1709.testnet";

/// The Ref Finance exchange contract.
pub const REF_CONTRACT: &'static str = "ref-finance-101.testnet";

/// The Ref Finance farming contract.
pub const REF_FARM_CONTRACT: &'static str = "boostfarm.ref-finance.testnet";

/// The yoctoNEAR attached to token and exchange calls.
pub const DEPOSIT_YOCTO: u128 = 1;

/// The yoctoNEAR a first stake pays for its storage, and that adding liquidity attaches.
pub const STORAGE_COST: u128 = 1_000_000_000_000_000_000_000;

/// 35 TGas.
pub const FT_CALL_35_TGAS: u64 = 35_000_000_000_000;

/// 45 TGas.
pub const FT_CALL_45_TGAS: u64 = 45_000_000_000_000;

/// 60 TGas.
pub const FT_CALL_60_TGAS: u64 = 60_000_000_000_000;

/// Zero yoctoNEAR.
pub const ZERO: u128 = 0;

/// The character between the exchange contract and the pool in a seed ID.
pub const POOL_SEPARATE: &'static str = "@";

/// The suffix that turns an account ID into its key in the stake list.
pub const STAKE_SUFFIX: &'static str = "_near";

} // verus!
