//! Read-only reporting views.

use vstd::prelude::*;

use crate::{AccountId, Balance, EpochHeight, NumStakeShares, StakingContract};

verus! {

/// A human-readable snapshot of one account: its balances, its shares and
/// the epoch at which its unstaked balance unlocks.
pub struct HumanReadableAccount {
    pub account_id: AccountId,
    /// The unstaked balance held locally, withdrawable once unlocked.
    pub unstaked_balance: Balance,
    /// The unstaked balance still sitting in the pool for this account.
    pub unstaked_in_metapool: Balance,
    /// The account's stake shares; their currency value floats with the
    /// share price.
    pub stake_shares: NumStakeShares,
    pub unstaked_available_epoch_height: EpochHeight,
}

impl StakingContract {
    /// A snapshot of the given account; identities without a ledger record
    /// read as all-zero.
    pub fn get_account(&self, account_id: &AccountId) -> (r: HumanReadableAccount)
        requires
            self.wf(),
        ensures
            r.account_id@ == account_id@,
            r.unstaked_balance == self.spec_account(account_id@).unstaked,
            r.unstaked_in_metapool == self.spec_account(account_id@).unstaked_in_metapool,
            r.stake_shares == self.spec_account(account_id@).stake_shares,
            r.unstaked_available_epoch_height == self.spec_account(
                account_id@,
            ).unstaked_available_epoch_height,
    {
        let account = self.internal_get_account(account_id);
        HumanReadableAccount {
            account_id: account_id.clone(),
            unstaked_balance: account.unstaked,
            unstaked_in_metapool: account.unstaked_in_metapool,
            stake_shares: account.stake_shares,
            unstaked_available_epoch_height: account.unstaked_available_epoch_height,
        }
    }

    /// Whether the given account has an operation in flight.
    pub fn is_account_busy(&self, account_id: &AccountId) -> (r: bool)
        ensures
            r == self.busy_guard.spec_holds(account_id@),
    {
        self.busy_guard.holds(account_id)
    }
}

} // verus!
