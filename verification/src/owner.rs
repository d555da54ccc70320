//! Owner's methods.

use vstd::prelude::*;

use crate::utils;
use crate::{AccountId, Balance, StakingContract, StakingError};

verus! {

impl StakingContract {
    /// Changes the contract owner. Must be called by the current owner, with
    /// exactly one yoctoNEAR attached as confirmation, and the new owner must
    /// be a valid account identity.
    pub fn set_owner_id(
        &mut self,
        caller: &AccountId,
        attached_deposit: Balance,
        new_owner_id: &AccountId,
    ) -> (r: Result<(), StakingError>)
        ensures
            r is Ok <==> (attached_deposit == 1 && utils::spec_is_valid_account_id(new_owner_id@)
                && caller@ == old(self).owner_id@),
            r is Err ==> *final(self) == *old(self),
            attached_deposit != 1 ==> r == Err::<(), StakingError>(StakingError::OneYoctoRequired),
            attached_deposit == 1 && !utils::spec_is_valid_account_id(new_owner_id@) ==> r
                == Err::<(), StakingError>(StakingError::InvalidAccountId),
            attached_deposit == 1 && utils::spec_is_valid_account_id(new_owner_id@) && caller@
                != old(self).owner_id@ ==> r == Err::<(), StakingError>(StakingError::NotOwner),
            r is Ok ==> final(self).owner_id@ == new_owner_id@ && *final(self) == (StakingContract {
                owner_id: final(self).owner_id,
                ..*old(self)
            }),
    {
        if attached_deposit != 1 {
            return Err(StakingError::OneYoctoRequired);
        }
        if !utils::is_valid_account_id(new_owner_id.as_str()) {
            return Err(StakingError::InvalidAccountId);
        }
        let owner_check = self.assert_owner(caller);
        match owner_check {
            Ok(()) => {
                self.owner_id = new_owner_id.clone();
                Ok(())
            },
            Err(e) => Err(e),
        }
    }

    /// Accepts the call only when it comes from the owner.
    pub(crate) fn assert_owner(&self, caller: &AccountId) -> (r: Result<(), StakingError>)
        ensures
            r is Ok <==> caller@ == self.owner_id@,
            r is Err ==> r == Err::<(), StakingError>(StakingError::NotOwner),
    {
        if *caller == self.owner_id {
            Ok(())
        } else {
            Err(StakingError::NotOwner)
        }
    }
}

} // verus!
