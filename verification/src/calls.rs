use vstd::prelude::*;

verus! {

/// Where a cross-contract call goes.
#[derive(Debug, PartialEq, Eq)]
pub enum Receiver {
    /// This contract itself (a callback).
    CurrentAccount,
    /// Another account.
    Account(String),
}

/// A method of another contract, or a callback of this one, with its arguments.
#[allow(inconsistent_fields)]
#[derive(Debug, PartialEq, Eq)]
pub enum Call {
    FtTransfer { receiver_id: String, amount: u128 },
    FtTransferCall { receiver_id: String, amount: u128, msg: String },
    AddLiquidity { pool_id: u64, amounts: Vec<u128> },
    RemoveLiquidity { min_amounts: Vec<u128>, pool_id: u64, shares: u128 },
    Withdraw { token_id: String, amount: u128, unregister: bool },
    MftTransferCall { amount: u128, msg: String, receiver_id: String, token_id: String },
    ClaimRewardBySeed { seed_id: String },
    WithdrawReward { token_id: String },
    UnlockAndWithdrawSeed { seed_id: String, unlock_amount: u128, withdraw_amount: u128 },
    AddLiquidityCallback {
        account_id: String,
        pool_id: String,
        amounts: Vec<u128>,
        token1: String,
        token2: String,
    },
    RemoveLiquidityCallback { account_id: String, pool_id: String, shares: u128 },
    WithdrawCallback { account_id: String, token_id: String },
    MftTransferCallback { amount: u128, pool_id: String, account_id: String },
    UnlockAndWithdrawSeedCallback { amount: u128, pool_id: String, account_id: String },
}

/// A call with the yoctoNEAR it attaches and the gas it reserves (`None`:
/// the runtime's default share).
#[derive(Debug, PartialEq, Eq)]
pub struct CrossCall {
    pub receiver: Receiver,
    pub call: Call,
    pub deposit: u128,
    pub gas: Option<u64>,
}

/// What a method answers, with the calls it sends: the chains run side by
/// side, and the calls of a chain one after the other.
#[derive(Debug, PartialEq, Eq)]
pub struct Outcome<T> {
    pub value: T,
    pub calls: Vec<Vec<CrossCall>>,
}

/// `Receiver` as plain values.
pub enum ReceiverView {
    CurrentAccount,
    Account(Seq<char>),
}

/// `Call` as plain values.
#[allow(inconsistent_fields)]
pub enum CallView {
    FtTransfer { receiver_id: Seq<char>, amount: u128 },
    FtTransferCall { receiver_id: Seq<char>, amount: u128, msg: Seq<char> },
    AddLiquidity { pool_id: u64, amounts: Seq<u128> },
    RemoveLiquidity { min_amounts: Seq<u128>, pool_id: u64, shares: u128 },
    Withdraw { token_id: Seq<char>, amount: u128, unregister: bool },
    MftTransferCall { amount: u128, msg: Seq<char>, receiver_id: Seq<char>, token_id: Seq<char> },
    ClaimRewardBySeed { seed_id: Seq<char> },
    WithdrawReward { token_id: Seq<char> },
    UnlockAndWithdrawSeed { seed_id: Seq<char>, unlock_amount: u128, withdraw_amount: u128 },
    AddLiquidityCallback {
        account_id: Seq<char>,
        pool_id: Seq<char>,
        amounts: Seq<u128>,
        token1: Seq<char>,
        token2: Seq<char>,
    },
    RemoveLiquidityCallback { account_id: Seq<char>, pool_id: Seq<char>, shares: u128 },
    WithdrawCallback { account_id: Seq<char>, token_id: Seq<char> },
    MftTransferCallback { amount: u128, pool_id: Seq<char>, account_id: Seq<char> },
    UnlockAndWithdrawSeedCallback { amount: u128, pool_id: Seq<char>, account_id: Seq<char> },
}

/// `CrossCall` as plain values.
pub struct CrossCallView {
    pub receiver: ReceiverView,
    pub call: CallView,
    pub deposit: u128,
    pub gas: Option<u64>,
}

impl View for Receiver {
    type V = ReceiverView;

    open spec fn view(&self) -> ReceiverView {
        match self {
            Receiver::CurrentAccount => ReceiverView::CurrentAccount,
            Receiver::Account(a) => ReceiverView::Account(a@),
        }
    }
}

impl View for Call {
    type V = CallView;

    open spec fn view(&self) -> CallView {
        match self {
            Call::FtTransfer { receiver_id, amount } => CallView::FtTransfer {
                receiver_id: receiver_id@,
                amount: *amount,
            },
            Call::FtTransferCall { receiver_id, amount, msg } => CallView::FtTransferCall {
                receiver_id: receiver_id@,
                amount: *amount,
                msg: msg@,
            },
            Call::AddLiquidity { pool_id, amounts } => CallView::AddLiquidity {
                pool_id: *pool_id,
                amounts: amounts@,
            },
            Call::RemoveLiquidity { min_amounts, pool_id, shares } => CallView::RemoveLiquidity {
                min_amounts: min_amounts@,
                pool_id: *pool_id,
                shares: *shares,
            },
            Call::Withdraw { token_id, amount, unregister } => CallView::Withdraw {
                token_id: token_id@,
                amount: *amount,
                unregister: *unregister,
            },
            Call::MftTransferCall { amount, msg, receiver_id, token_id } => CallView::MftTransferCall {
                amount: *amount,
                msg: msg@,
                receiver_id: receiver_id@,
                token_id: token_id@,
            },
            Call::ClaimRewardBySeed { seed_id } => CallView::ClaimRewardBySeed { seed_id: seed_id@ },
            Call::WithdrawReward { token_id } => CallView::WithdrawReward { token_id: token_id@ },
            Call::UnlockAndWithdrawSeed { seed_id, unlock_amount, withdraw_amount } => CallView::UnlockAndWithdrawSeed {
                seed_id: seed_id@,
                unlock_amount: *unlock_amount,
                withdraw_amount: *withdraw_amount,
            },
            Call::AddLiquidityCallback { account_id, pool_id, amounts, token1, token2 } => CallView::AddLiquidityCallback {
                account_id: account_id@,
                pool_id: pool_id@,
                amounts: amounts@,
                token1: token1@,
                token2: token2@,
            },
            Call::RemoveLiquidityCallback { account_id, pool_id, shares } => CallView::RemoveLiquidityCallback {
                account_id: account_id@,
                pool_id: pool_id@,
                shares: *shares,
            },
            Call::WithdrawCallback { account_id, token_id } => CallView::WithdrawCallback {
                account_id: account_id@,
                token_id: token_id@,
            },
            Call::MftTransferCallback { amount, pool_id, account_id } => CallView::MftTransferCallback {
                amount: *amount,
                pool_id: pool_id@,
                account_id: account_id@,
            },
            Call::UnlockAndWithdrawSeedCallback { amount, pool_id, account_id } => CallView::UnlockAndWithdrawSeedCallback {
                amount: *amount,
                pool_id: pool_id@,
                account_id: account_id@,
            },
        }
    }
}

impl View for CrossCall {
    type V = CrossCallView;

    open spec fn view(&self) -> CrossCallView {
        CrossCallView { receiver: self.receiver@, call: self.call@, deposit: self.deposit, gas: self.gas }
    }
}

/// The calls of an outcome as plain values.
pub open spec fn calls_view(calls: Vec<Vec<CrossCall>>) -> Seq<Seq<CrossCallView>> {
    Seq::new(calls@.len(), |i: int| Seq::new(calls@[i]@.len(), |j: int| calls@[i]@[j]@))
}

} // verus!
