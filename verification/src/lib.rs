//! A staking proxy ledger that sits between NEAR lockup accounts and the
//! Meta Pool liquid-staking pool.
//!
//! Users deposit value, ask for it to be staked, later ask for unstaking, and
//! finally withdraw. The proxy never stakes by itself: every stake, unstake
//! and withdraw is delegated to the pool through an asynchronous call, and the
//! proxy reconciles its own ledger with whatever that call reports.
//!
//! The host scheduler (the NEAR runtime) is modelled at the interface: a
//! user-facing operation validates its preconditions, mutates the local
//! ledger, acquires a re-entrance guard and returns a description of the
//! asynchronous call to issue ([`staking::PoolRequest`]); the host later hands
//! the settled outcome of that call ([`staking::PromiseOutcome`]) to the
//! designated callback, the only place that finalizes state. Callbacks are
//! total: they clear the guard first and never reject an outcome.

use vstd::prelude::*;

pub mod account;
pub mod arith;
pub mod guard;
pub mod internal;
pub mod json;
pub mod owner;
pub mod ping;
pub mod staking;
pub mod test_only;
pub mod utils;
pub mod views;

use crate::account::Account;
use crate::guard::Guard;
use crate::internal::{ledger_wf, sum_shares};

verus! {

/// A currency amount in yoctoNEAR.
pub type Balance = u128;

/// A coarse logical time unit of the host chain, gating unlock delays.
pub type EpochHeight = u64;

/// A count of Meta Pool stake shares (stNEAR), distinguished from a balance
/// for readability. A share's value in currency floats with the share price.
pub type NumStakeShares = Balance;

/// An account identity on the host chain.
pub type AccountId = String;

pub const ONE_E24: u128 = 1_000_000_000_000_000_000_000_000;

pub const NEAR: u128 = ONE_E24;

pub const ONE_NEAR: u128 = NEAR;

/// A synchronous rejection: every precondition violation is reported through
/// this type before any asynchronous call is issued, and the operation leaves
/// the contract untouched.
#[derive(Clone, Copy, PartialEq, Eq, Structural, Debug)]
pub enum StakingError {
    /// Separately staged deposit and stake calls are disabled; only the
    /// atomic `deposit_and_stake` is offered.
    NotSupported,
    /// `deposit_and_stake` was attached less than the configured minimum.
    MinimumDepositRequired,
    /// The requested amount or share count was zero.
    ZeroAmount,
    /// The account holds fewer stake shares than the unstake request needs.
    NotEnoughStakedBalance,
    /// The account's unstaked balances do not cover the withdrawal.
    NotEnoughUnstakedBalance,
    /// The unstaking delay has not elapsed yet.
    UnstakeDelayNotOver,
    /// The re-entrance guard for this scope is already held.
    Busy,
    /// The caller is not the contract owner.
    NotOwner,
    /// The operation demands exactly one attached yoctoNEAR as confirmation.
    OneYoctoRequired,
    /// The account identity does not satisfy the host chain's rules.
    InvalidAccountId,
    /// The named account does not exist in the ledger.
    AccountNotFound,
    /// A balance update would exceed the representable range.
    BalanceOverflow,
}

impl StakingError {
    /// The descriptive message each rejection carries to the user.
    pub open spec fn spec_message(&self) -> Seq<char> {
        match self {
            StakingError::NotSupported => "not supported, please use deposit_and_stake"@,
            StakingError::MinimumDepositRequired => "minimum deposit amount is 10 NEAR"@,
            StakingError::ZeroAmount => "amount should be positive"@,
            StakingError::NotEnoughStakedBalance => "Not enough staked balance to unstake"@,
            StakingError::NotEnoughUnstakedBalance => "Not enough unstaked balance to withdraw"@,
            StakingError::UnstakeDelayNotOver => "The unstaked balance is not yet available due to unstaking delay"@,
            StakingError::Busy => "Busy. Try again later"@,
            StakingError::NotOwner => "Can only be called by the owner"@,
            StakingError::OneYoctoRequired => "Requires attached deposit of exactly 1 yoctoNEAR"@,
            StakingError::InvalidAccountId => "The account ID is invalid"@,
            StakingError::AccountNotFound => "account not found"@,
            StakingError::BalanceOverflow => "balance overflow"@,
        }
    }

    /// The descriptive message each rejection carries to the user.
    pub fn message(&self) -> (m: String)
        ensures
            m@ == self.spec_message(),
    {
        match self {
            StakingError::NotSupported => String::from_str(
                "not supported, please use deposit_and_stake",
            ),
            StakingError::MinimumDepositRequired => String::from_str(
                "minimum deposit amount is 10 NEAR",
            ),
            StakingError::ZeroAmount => String::from_str("amount should be positive"),
            StakingError::NotEnoughStakedBalance => String::from_str(
                "Not enough staked balance to unstake",
            ),
            StakingError::NotEnoughUnstakedBalance => String::from_str(
                "Not enough unstaked balance to withdraw",
            ),
            StakingError::UnstakeDelayNotOver => String::from_str(
                "The unstaked balance is not yet available due to unstaking delay",
            ),
            StakingError::Busy => String::from_str("Busy. Try again later"),
            StakingError::NotOwner => String::from_str("Can only be called by the owner"),
            StakingError::OneYoctoRequired => String::from_str(
                "Requires attached deposit of exactly 1 yoctoNEAR",
            ),
            StakingError::InvalidAccountId => String::from_str("The account ID is invalid"),
            StakingError::AccountNotFound => String::from_str("account not found"),
            StakingError::BalanceOverflow => String::from_str("balance overflow"),
        }
    }
}

/// Law: in every state the verified operations produce — in particular at
/// every quiescent point, when no operation is in flight — the contract-wide
/// share total equals the sum of the share counts over all accounts. The
/// total and the per-account counts move only together, inside the same
/// callback, so the equality is not merely eventual: it is part of
/// [`StakingContract::wf`], which `new` establishes and every operation
/// preserves.
pub proof fn lemma_total_equals_sum_of_shares(c: &StakingContract)
    requires
        c.wf(),
    ensures
        c.total_stake_shares == sum_shares(c.accounts@),
{
}

/// The staking proxy's whole state: the account ledger, the contract-wide
/// totals, the re-entrance guards and the cached pool quotes.
#[derive(Debug)]
pub struct StakingContract {
    pub owner_id: AccountId,
    /// The total amount of shares, equal to the sum of the share counts
    /// across all accounts, and — at quiescent points — to the pool's share
    /// ledger for this contract's custodial account.
    pub total_stake_shares: NumStakeShares,
    /// Reserved for future use.
    pub reserved: Balance,
    /// The account ledger: one record per account identity, empty records
    /// deleted on save.
    pub accounts: Vec<(AccountId, Account)>,
    /// Whether new stake operations are administratively paused.
    pub paused: bool,
    /// The contract-scoped variant of the re-entrance guard: one flag
    /// serializing all operations. The per-account variant is `busy_guard`.
    pub contract_busy: bool,
    /// The per-account re-entrance guard: marks the accounts with an
    /// operation in flight.
    pub busy_guard: Guard,
    pub meta_pool_contract_id: AccountId,
    /// Cached quote: how many yoctoNEAR one share (stNEAR) is worth. Never
    /// below `ONE_NEAR`, because the pool mints at most one share per NEAR
    /// staked. Refreshed on `ping`; may be stale between refreshes.
    pub share_near_price: Balance,
    /// Cached quote: the pool's reward fee, in basis points. Refreshed on
    /// `ping`.
    pub meta_pool_fee_bp: u16,
}

impl StakingContract {
    /// Well-formedness, established by `new` and preserved by every
    /// operation: the ledger keys are unique and no stored account is empty;
    /// the guard holds each scope at most once; the contract-wide share total
    /// equals the sum of the accounts' share counts; and the cached share
    /// price never falls below one NEAR per share.
    pub open spec fn wf(&self) -> bool {
        ledger_wf(self.accounts@) && self.busy_guard.wf() && self.total_stake_shares == sum_shares(
            self.accounts@,
        ) && ONE_NEAR <= self.share_near_price
    }

    /// Initializes the contract with the given owner and the account of the
    /// Meta Pool instance to delegate to. The owner identity must satisfy the
    /// host chain's account rules.
    pub fn new(owner_id: AccountId, meta_pool_contract_id: AccountId) -> (r: Result<
        StakingContract,
        StakingError,
    >)
        ensures
            r is Ok <==> utils::spec_is_valid_account_id(owner_id@),
            r is Err ==> r == Err::<StakingContract, StakingError>(StakingError::InvalidAccountId),
            r is Ok ==> ({
                let c = r.unwrap();
                &&& c.wf()
                &&& c.owner_id == owner_id
                &&& c.total_stake_shares == 0
                &&& c.reserved == 0
                &&& c.accounts@.len() == 0
                &&& !c.paused
                &&& !c.contract_busy
                &&& forall|k: Seq<char>| !c.busy_guard.spec_holds(k)
                &&& c.meta_pool_contract_id == meta_pool_contract_id
                &&& c.share_near_price == ONE_NEAR
                &&& c.meta_pool_fee_bp == 400
            }),
    {
        if !utils::is_valid_account_id(owner_id.as_str()) {
            return Err(StakingError::InvalidAccountId);
        }
        Ok(
            StakingContract {
                owner_id,
                total_stake_shares: 0,
                reserved: 0,
                accounts: Vec::new(),
                paused: false,
                contract_busy: false,
                busy_guard: Guard::new(),
                meta_pool_contract_id,
                share_near_price: ONE_NEAR,
                meta_pool_fee_bp: 400,
            },
        )
    }

    /// The contract-scoped guard check: rejects while the contract is busy.
    pub fn assert_not_busy(&self) -> (r: Result<(), StakingError>)
        ensures
            r is Ok <==> !self.contract_busy,
            r is Err ==> r == Err::<(), StakingError>(StakingError::Busy),
    {
        if self.contract_busy {
            Err(StakingError::Busy)
        } else {
            Ok(())
        }
    }

    /// Owner-only escape hatch: clears the contract-scoped busy flag.
    pub fn set_not_busy(&mut self, caller: &AccountId) -> (r: Result<(), StakingError>)
        ensures
            r is Ok <==> caller@ == old(self).owner_id@,
            r is Err ==> r == Err::<(), StakingError>(StakingError::NotOwner) && *final(self)
                == *old(self),
            r is Ok ==> *final(self) == (StakingContract { contract_busy: false, ..*old(self) }),
    {
        let owner_check = self.assert_owner(caller);
        match owner_check {
            Ok(()) => {
                self.contract_busy = false;
                Ok(())
            },
            Err(e) => Err(e),
        }
    }
}

} // verus!
