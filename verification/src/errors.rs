use vstd::prelude::*;

verus! {

/// Why the contract refuses a call. A refused call changes no state.
#[derive(Debug, Clone, Copy, PartialEq, Eq, Structural)]
pub enum ContractError {
    /// ERR100: the caller is not the owner.
    NotAllowed,
    /// ERR200: the balance, stake or pool shares are short of the amount.
    NotEnough,
    /// ERR201: the farmed amount is short of the amount.
    NotEnoughFarm,
    /// ERR202: the pool shares are short of the amount.
    NotEnoughPool,
    /// ERR300: a pool token ID does not start with `:`.
    IllegalTokenId,
    /// ERR301: a seed ID is not `<contract>@<pool>`.
    IllegalSeedId,
    /// A first stake does not attach more than the storage cost.
    StakeBelowStorageCost,
    /// A string that must be an account ID breaks the account ID rules.
    InvalidAccountId,
    /// A reply that must be a decimal amount is not one.
    InvalidAmount,
}

} // verus!
