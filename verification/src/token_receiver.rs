use vstd::prelude::*;
use crate::Contract;

verus! {

impl Contract {
    /// A token contract `token_id` reports that `sender_id` sent it `amount`
    /// with `msg`: the amount is credited to the sender's balance of that
    /// token, and none of it is handed back (the answer is 0).
    pub fn ft_on_transfer(&mut self, sender_id: String, token_id: String, amount: u128, msg: String) -> (unused: u128)
        requires
            old(self).token_writes(sender_id@, token_id@),
            old(self).balance_of(sender_id@, token_id@) + amount <= u128::MAX,
        ensures
            unused == 0,
            Contract::token_set(
                *old(self),
                *final(self),
                sender_id@,
                token_id@,
                (old(self).balance_of(sender_id@, token_id@) + amount) as u128,
            ),
            Contract::only_balances_differ(*old(self), *final(self)),
            old(self).farmers_are_poolers() ==> final(self).farmers_are_poolers(),
    {
        self.update_user_balance(sender_id, token_id, amount);
        0
    }
}

} // verus!
