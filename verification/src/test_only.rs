//! Methods for deployments on the test network only.

use vstd::prelude::*;

use crate::account::Account;
use crate::internal::stored_form;
use crate::{EpochHeight, StakingContract, StakingError};

verus! {

/// The fixed test-network account whose unstaking delay `accelerate_unstake`
/// cuts short.
pub const ACCELERATE_ACCOUNT_ID: &'static str =
    "274e981786efcabbe87794f20348c1b2af6e7963.lockupy.testnet";

impl StakingContract {
    /// Marks the fixed test-network account's unstaked balance as available
    /// right now, instead of waiting out the delay. Rejected when that
    /// account is not in the ledger.
    pub fn accelerate_unstake(&mut self, current_epoch_height: EpochHeight) -> (r: Result<
        (),
        StakingError,
    >)
        requires
            old(self).wf(),
        ensures
            final(self).wf(),
            r is Ok <==> old(self).spec_contains_account(ACCELERATE_ACCOUNT_ID@),
            r is Err ==> r == Err::<(), StakingError>(StakingError::AccountNotFound) && *final(self)
                == *old(self),
            r is Ok ==> final(self).spec_account(ACCELERATE_ACCOUNT_ID@) == stored_form(
                Account {
                    unstaked_available_epoch_height: current_epoch_height,
                    ..old(self).spec_account(ACCELERATE_ACCOUNT_ID@)
                },
            ),
            forall|k: Seq<char>|
                k != ACCELERATE_ACCOUNT_ID@ ==> final(self).spec_account(k) == old(
                    self,
                ).spec_account(k),
            r is Ok ==> Self::same_but_accounts(*old(self), *final(self)),
    {
        let account_id = ACCELERATE_ACCOUNT_ID.to_owned();
        let mut account = self.internal_get_account(&account_id);
        if account.is_empty() {
            proof {
                crate::internal::lemma_account_absent_iff_empty(self.accounts@, account_id@);
            }
            return Err(StakingError::AccountNotFound);
        }
        account.unstaked_available_epoch_height = current_epoch_height;
        self.internal_save_account(&account_id, &account);
        Ok(())
    }
}

} // verus!
