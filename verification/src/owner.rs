use vstd::prelude::*;
use crate::errors::ContractError;
use crate::Contract;

verus! {

impl Contract {
    /// The owner's account ID.
    pub fn get_owner_id(&self) -> (r: String)
        ensures
            r@ == self.owner_id@,
    {
        self.owner_id.clone()
    }

    /// Hands the contract to `owner_id`; refused with `NotAllowed` unless
    /// the caller is the owner.
    pub fn set_owner_id(&mut self, predecessor_id: String, owner_id: String) -> (r: Result<(), ContractError>)
        ensures
            r is Ok <==> predecessor_id@ == old(self).owner_id@,
            r is Err ==> r == Err::<(), ContractError>(ContractError::NotAllowed) && *final(self) == *old(self),
            r is Ok ==> final(self).owner_id@ == owner_id@,
            r is Ok ==> final(self).message == old(self).message,
            r is Ok ==> final(self).stake_list == old(self).stake_list,
            r is Ok ==> final(self).poolers == old(self).poolers,
            r is Ok ==> final(self).farmers == old(self).farmers,
            r is Ok ==> final(self).user_balance == old(self).user_balance,
            r is Ok ==> final(self).pool_slots == old(self).pool_slots,
            r is Ok ==> final(self).farm_slots == old(self).farm_slots,
            r is Ok ==> final(self).token_slots == old(self).token_slots,
            old(self).farmers_are_poolers() ==> final(self).farmers_are_poolers(),
    {
        match self.assert_owner(&predecessor_id) {
            Ok(()) => {
                self.owner_id = owner_id;
                Ok(())
            },
            Err(e) => Err(e),
        }
    }

    /// Refused with `NotAllowed` unless `predecessor_id` is the owner.
    pub fn assert_owner(&self, predecessor_id: &String) -> (r: Result<(), ContractError>)
        ensures
            r is Ok <==> predecessor_id@ == self.owner_id@,
            r is Err ==> r == Err::<(), ContractError>(ContractError::NotAllowed),
    {
        if *predecessor_id == self.owner_id {
            Ok(())
        } else {
            Err(ContractError::NotAllowed)
        }
    }
}

} // verus!
