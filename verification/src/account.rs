//! Per-account state of the ledger.

use vstd::prelude::*;

use crate::{Balance, EpochHeight, NumStakeShares};

verus! {

/// Inner account data of a delegate, keyed by account identity in the ledger.
///
/// Only the share count is authoritative for staked value: the share price
/// floats, so no field remembers a "deposited" currency amount for the staked
/// part.
#[derive(Clone, Copy, PartialEq, Eq, Structural, Debug)]
pub struct Account {
    /// The unstaked balance held locally by this contract. It can be
    /// withdrawn once the unlock condition is satisfied.
    pub unstaked: Balance,
    /// The unstaked balance sitting in Meta Pool for this account: reported
    /// as unstaked by the pool but not yet retrieved into local custody.
    pub unstaked_in_metapool: Balance,
    /// The amount of "stake" shares. The number of shares is always less than
    /// or equal to the staked balance they are worth, so the price of a share
    /// is always at least one.
    pub stake_shares: NumStakeShares,
    /// The minimum epoch height at which withdrawal is allowed. Moved forward
    /// by every successful unstake, because the unstaked amount stays locked
    /// for a few epochs.
    pub unstaked_available_epoch_height: EpochHeight,
}

impl Account {
    /// The zero-valued account handed out for identities absent from the
    /// ledger.
    pub open spec fn spec_default() -> Account {
        Account {
            unstaked: 0,
            unstaked_in_metapool: 0,
            stake_shares: 0,
            unstaked_available_epoch_height: 0,
        }
    }

    /// Emptiness is a pure function of the balance fields: an empty account
    /// is deleted from storage on save, so the ledger never accumulates
    /// zero-valued records.
    pub open spec fn spec_is_empty(&self) -> bool {
        self.unstaked == 0 && self.unstaked_in_metapool == 0 && self.stake_shares == 0
    }

    #[verifier::when_used_as_spec(spec_is_empty)]
    pub fn is_empty(&self) -> (r: bool)
        ensures
            r == self.spec_is_empty(),
    {
        self.unstaked == 0 && self.unstaked_in_metapool == 0 && self.stake_shares == 0
    }
}

impl Default for Account {
    fn default() -> (r: Self)
        ensures
            r == Account::spec_default(),
    {
        Account {
            unstaked: 0,
            unstaked_in_metapool: 0,
            stake_shares: 0,
            unstaked_available_epoch_height: 0,
        }
    }
}

} // verus!
