use vstd::prelude::*;
use crate::calls::{calls_view, Call, CallView, CrossCall, CrossCallView, Outcome, Receiver, ReceiverView};
use crate::errors::ContractError;
use crate::utils::{DEPOSIT_YOCTO, FT_CALL_35_TGAS};
use crate::farm::{amount_rows, map_fits};
use crate::text::decimal_text;
use crate::Contract;

verus! {

/// One row of a balance listing: a token account ID and the amount
/// deposited, in decimal.
pub struct UserBalanceDTO {
    pub token_id: String,
    pub amount: String,
}

/// The token contract `token` sends `amount` to `receiver`, with one
/// yoctoNEAR attached. The gas of this payout is a choice of this library:
/// 35 TGas, the gas the contract gives the token transfers
/// (`ft_transfer_call`) of a liquidity deposit, since no figure of its own
/// is defined for the payout.
pub open spec fn token_payout(token: Seq<char>, receiver: Seq<char>, amount: u128) -> Seq<Seq<CrossCallView>> {
    seq![
        seq![
            CrossCallView {
                receiver: ReceiverView::Account(token),
                call: CallView::FtTransfer { receiver_id: receiver, amount },
                deposit: DEPOSIT_YOCTO,
                gas: Some(FT_CALL_35_TGAS),
            },
        ],
    ]
}

/// The call in which the token contract `token` sends `amount` to `receiver`.
fn payout(token: String, receiver: String, amount: u128) -> (calls: Vec<Vec<CrossCall>>)
    ensures
        calls_view(calls) == token_payout(token@, receiver@, amount),
{
    let calls = vec![
        vec![
            CrossCall {
                receiver: Receiver::Account(token),
                call: Call::FtTransfer { receiver_id: receiver, amount },
                deposit: DEPOSIT_YOCTO,
                gas: Some(FT_CALL_35_TGAS),
            },
        ],
    ];
    assert(calls_view(calls) =~~= token_payout(token@, receiver@, amount));
    calls
}

impl Contract {
    /// `account_id`'s deposited tokens as its record lists them.
    pub fn get_balance(&self, account_id: String) -> (r: Vec<UserBalanceDTO>)
        requires
            map_fits(self.token_slots@, self.token_map(account_id@)),
        ensures
            r@.len() == self.token_listing(account_id@).len(),
            forall|i: int| 0 <= i < r@.len() ==> {
                let row = self.token_listing(account_id@)[i];
                &&& (#[trigger] r@[i]).token_id@ == row.0
                &&& r@[i].amount@ == decimal_text(row.1 as nat)
            },
    {
        let mut result: Vec<UserBalanceDTO> = Vec::new();
        if let Some(user_balance) = self.user_balance.get(&account_id) {
            let rows = amount_rows(&self.token_slots, &user_balance.tokens);
            let n = rows.len();
            let mut i: usize = 0;
            while i < n
                invariant
                    n == rows@.len(),
                    i <= n,
                    result@.len() == i,
                    forall|j: int| 0 <= j < i ==> {
                        &&& (#[trigger] result@[j]).token_id@ == rows@[j].0@
                        &&& result@[j].amount@ == rows@[j].1@
                    },
                decreases n - i,
            {
                result.push(UserBalanceDTO { token_id: rows[i].0.clone(), amount: rows[i].1.clone() });
                i = i + 1;
            }
        }
        result
    }

    /// Takes `amount` of `token_id` out of the caller's balance and has the
    /// token contract send it to the caller; answers `amount`. Refused with
    /// `NotEnough` unless the caller has an entry for the token holding at
    /// least `amount`.
    pub fn withdraw_balance(&mut self, predecessor_id: String, token_id: String, amount: u128) -> (r: Result<Outcome<u128>, ContractError>)
        requires
            old(self).token_reads(predecessor_id@, token_id@),
        ensures
            r is Ok <==> old(self).tokens_of(predecessor_id@).contains_key(token_id@)
                && amount <= old(self).balance_of(predecessor_id@, token_id@),
            r is Err ==> r == Err::<Outcome<u128>, ContractError>(ContractError::NotEnough) && *final(self) == *old(self),
            r matches Ok(o) ==> o.value == amount && calls_view(o.calls) == token_payout(token_id@, predecessor_id@, amount),
            r is Ok ==> Contract::token_set(
                *old(self),
                *final(self),
                predecessor_id@,
                token_id@,
                (old(self).balance_of(predecessor_id@, token_id@) - amount) as u128,
            ),
            r is Ok ==> Contract::only_balances_differ(*old(self), *final(self)),
            old(self).farmers_are_poolers() ==> final(self).farmers_are_poolers(),
    {
        match self.withdraw_user_balance(predecessor_id.clone(), token_id.clone(), amount) {
            Ok(()) => Ok(Outcome { value: amount, calls: payout(token_id, predecessor_id, amount) }),
            Err(e) => Err(e),
        }
    }

    /// Takes all of `token_id` out of the caller's balance and has the token
    /// contract send it to the caller; the entry stays, at 0. Answers the
    /// amount taken. Refused with `NotEnough` unless the caller has an entry
    /// for the token.
    pub fn withdraw_max(&mut self, predecessor_id: String, token_id: String) -> (r: Result<Outcome<u128>, ContractError>)
        requires
            old(self).token_reads(predecessor_id@, token_id@),
        ensures
            r is Ok <==> old(self).tokens_of(predecessor_id@).contains_key(token_id@),
            r is Err ==> r == Err::<Outcome<u128>, ContractError>(ContractError::NotEnough) && *final(self) == *old(self),
            r matches Ok(o) ==> o.value == old(self).balance_of(predecessor_id@, token_id@) && calls_view(o.calls)
                == token_payout(token_id@, predecessor_id@, o.value),
            r is Ok ==> Contract::token_set(*old(self), *final(self), predecessor_id@, token_id@, 0),
            r is Ok ==> Contract::only_balances_differ(*old(self), *final(self)),
            old(self).farmers_are_poolers() ==> final(self).farmers_are_poolers(),
    {
        match self.token_amount(&predecessor_id, &token_id) {
            Some(amount) => {
                self.set_token(&predecessor_id, token_id.clone(), 0);
                Ok(Outcome { value: amount, calls: payout(token_id, predecessor_id, amount) })
            },
            None => Err(ContractError::NotEnough),
        }
    }
}

} // verus!
