//! The deposit/stake, unstake and withdraw orchestrators and their callbacks.
//!
//! A user-facing operation validates its preconditions synchronously — any
//! violation rejects the whole operation with no state change — acquires the
//! account's re-entrance guard and hands back the [`PoolRequest`] the host
//! must issue against the pool, chained to the matching callback. The
//! callback is the only place that finalizes state: it receives the settled
//! [`PromiseOutcome`], clears the guard first, and commits or rolls back. A
//! callback is total — it runs past the point of no return and must never
//! abort, so a payload that does not decode, or a commit that the ledger
//! cannot take, is absorbed without any mutation rather than trapped on.

use vstd::prelude::*;

use crate::account::Account;
use crate::internal::{lemma_account_shares_le_sum, stored_form};
use crate::json::{parse_quoted_pair, parse_quoted_u128, spec_quoted_pair, spec_quoted_u128};
use crate::utils::{
    lemma_currency_to_shares_le_amount, mul_div, spec_currency_to_shares, TGAS,
};
use crate::{
    AccountId, Balance, EpochHeight, NumStakeShares, StakingContract, StakingError, ONE_NEAR,
};

verus! {

pub const META_POOL_DEPOSIT_AND_STAKE_GAS: u64 = 30 * TGAS;

pub const AFTER_STAKE_FOR_LOCKUP_GAS: u64 = 5 * TGAS;

pub const META_POOL_WITHDRAW_GAS: u64 = 10 * TGAS;

pub const AFTER_WITHDRAW_GAS: u64 = 5 * TGAS;

pub const META_POOL_UNSTAKE_SHARES_GAS: u64 = 20 * TGAS;

pub const AFTER_UNSTAKE_SHARES_GAS: u64 = 5 * TGAS;

/// The smallest deposit `deposit_and_stake` accepts: the proxy manages
/// lockup accounts, so a sane minimum is kept.
pub const MIN_DEPOSIT_AMOUNT: u128 = 10_000_000_000_000_000_000_000_000;

/// An asynchronous call the host must issue against the Meta Pool, chained
/// to the callback of the same operation.
#[derive(Debug)]
pub enum PoolRequest {
    /// `stake_for_lockup(lockup_account_id)` with `deposit` attached;
    /// settles into `after_stake_for_lockup`.
    StakeForLockup { lockup_account_id: AccountId, deposit: Balance },
    /// `unstake_from_lockup_shares(lockup_account_id, shares)`; settles into
    /// `after_unstake_shares`.
    UnstakeFromLockupShares { lockup_account_id: AccountId, shares: NumStakeShares },
    /// `withdraw_to_lockup(lockup_account_id, amount)`; settles into
    /// `after_metapool_withdraw_to_lockup`.
    WithdrawToLockup { lockup_account_id: AccountId, amount: Balance },
    /// `get_st_near_price()`; settles into `after_get_st_near_price`.
    GetStNearPrice,
    /// `get_reward_fee_bp()`; settles into `after_get_reward_fee_bp`.
    GetRewardFeeBp,
}

/// A synchronous currency transfer the host must perform.
#[derive(Debug)]
pub struct TransferAction {
    pub receiver_id: AccountId,
    pub amount: Balance,
}

/// The settled outcome of an asynchronous call, as the host hands it to the
/// designated callback: a success payload to decode, or a failure signal
/// with no payload. The host invokes a callback only after settlement, so an
/// unsettled state needs no representation.
#[derive(Debug)]
pub enum PromiseOutcome {
    Successful(Vec<u8>),
    Failed,
}

/// What a withdrawal resolves to: a purely local transfer, or a retrieval
/// from the pool that settles into the withdraw callback.
#[derive(Debug)]
pub enum WithdrawRequest {
    Local(TransferAction),
    FromPool(PoolRequest),
}

/// The callback interface this contract registers with the host when it
/// chains a pool call: the host dispatches the settled outcome back into the
/// contract through these entry points.
pub trait SelfContract {
    /// Checks the result of the staking action; on failure, rolls the
    /// operation back.
    fn after_stake_for_lockup(&mut self, account_id: AccountId, deposited_amount: Balance);

    fn after_metapool_withdraw_to_lockup(&mut self, account_id: AccountId, amount: Balance);

    fn after_unstake_shares(&mut self, account_id: AccountId, num_shares: NumStakeShares);
}

impl StakingContract {
    // =====================
    // == DEPOSIT & STAKE ==
    // =====================
    // In the reference staking pool, depositing and staking can be performed
    // separately or in a single call. To increase safety and simplicity only
    // the composed `deposit_and_stake` is supported here: removing the
    // concept of a locally deposited balance keeps the custodial contract
    // simpler and the partially-completed states fewer. The standard wallet
    // uses `deposit_and_stake` when dealing with lockup accounts.
    /// Disabled in this deployment: rejected for every caller.
    pub fn deposit(&mut self) -> (r: Result<(), StakingError>)
        ensures
            r == Err::<(), StakingError>(StakingError::NotSupported),
            *final(self) == *old(self),
    {
        Err(StakingError::NotSupported)
    }

    /// Disabled in this deployment: rejected for every caller.
    pub fn stake_all(&mut self) -> (r: Result<PoolRequest, StakingError>)
        ensures
            r == Err::<PoolRequest, StakingError>(StakingError::NotSupported),
            *final(self) == *old(self),
    {
        Err(StakingError::NotSupported)
    }

    /// Disabled in this deployment: rejected for every caller.
    #[allow(unused_variables)]
    pub fn stake(&mut self, amount: Balance) -> (r: Result<PoolRequest, StakingError>)
        ensures
            r == Err::<PoolRequest, StakingError>(StakingError::NotSupported),
            *final(self) == *old(self),
    {
        Err(StakingError::NotSupported)
    }

    /// Stakes the attached deposit for the calling lockup account: checks
    /// the minimum, marks the account busy and hands back the stake call to
    /// issue. The deposit travels with the call — no local balance is
    /// credited yet; the callback commits the shares or returns the funds.
    pub fn deposit_and_stake(&mut self, account_id: &AccountId, attached_deposit: Balance) -> (r:
        Result<PoolRequest, StakingError>)
        requires
            old(self).wf(),
        ensures
            final(self).wf(),
            r is Ok <==> (attached_deposit >= MIN_DEPOSIT_AMOUNT && !old(self).busy_guard.spec_holds(account_id@)),
            attached_deposit < MIN_DEPOSIT_AMOUNT ==> r == Err::<PoolRequest, StakingError>(
                StakingError::MinimumDepositRequired,
            ),
            attached_deposit >= MIN_DEPOSIT_AMOUNT && old(self).busy_guard.spec_holds(account_id@)
                ==> r == Err::<PoolRequest, StakingError>(StakingError::Busy),
            r is Err ==> *final(self) == *old(self),
            r is Ok ==> r == Ok::<PoolRequest, StakingError>(
                (PoolRequest::StakeForLockup {
                    lockup_account_id: *account_id,
                    deposit: attached_deposit,
                }),
            ),
            r is Ok ==> final(self).busy_guard.spec_holds(account_id@) && *final(self) == (
            StakingContract { busy_guard: final(self).busy_guard, ..*old(self) }),
            forall|k: Seq<char>|
                k != account_id@ ==> final(self).busy_guard.spec_holds(k) == old(self).busy_guard.spec_holds(k),
    {
        if attached_deposit < MIN_DEPOSIT_AMOUNT {
            return Err(StakingError::MinimumDepositRequired);
        }
        // avoiding re-entry: one in-flight operation per account
        match self.busy_guard.acquire(account_id) {
            Err(e) => Err(e),
            Ok(()) => Ok(
                PoolRequest::StakeForLockup {
                    lockup_account_id: account_id.clone(),
                    deposit: attached_deposit,
                },
            ),
        }
    }

    /// Settles a `deposit_and_stake`. The guard is cleared first,
    /// unconditionally. On success the payload carries the share count the
    /// pool minted: those shares are credited to the account and to the
    /// contract-wide total. A success payload that does not decode — or one
    /// whose shares the totals cannot take — credits nothing: the currency
    /// already sits in the pool, an acknowledged gap rather than an abort.
    /// On failure the stake never happened: the ledger is untouched and the
    /// deposited currency is returned to the originating account.
    pub fn after_stake_for_lockup(
        &mut self,
        account_id: &AccountId,
        deposited_amount: Balance,
        outcome: &PromiseOutcome,
    ) -> (r: Option<TransferAction>)
        requires
            old(self).wf(),
        ensures
            final(self).wf(),
            !final(self).busy_guard.spec_holds(account_id@),
            forall|k: Seq<char>|
                k != account_id@ ==> final(self).busy_guard.spec_holds(k) == old(self).busy_guard.spec_holds(k),
            Self::same_config(*old(self), *final(self)),
            match outcome {
                PromiseOutcome::Failed => r == Some(
                    (TransferAction { receiver_id: *account_id, amount: deposited_amount }),
                ) && final(self).accounts@ == old(self).accounts@ && final(self).total_stake_shares
                    == old(self).total_stake_shares,
                PromiseOutcome::Successful(payload) => r is None && (match spec_quoted_u128(
                    payload@,
                ) {
                    Some(num_shares) => {
                        if old(self).total_stake_shares + num_shares <= u128::MAX {
                            &&& final(self).spec_account(account_id@) == stored_form(
                                Account {
                                    stake_shares: (old(self).spec_account(account_id@).stake_shares
                                        + num_shares) as u128,
                                    ..old(self).spec_account(account_id@)
                                },
                            )
                            &&& forall|k: Seq<char>|
                                k != account_id@ ==> final(self).spec_account(k) == old(self).spec_account(k)
                            &&& final(self).total_stake_shares == old(self).total_stake_shares
                                + num_shares
                        } else {
                            final(self).accounts@ == old(self).accounts@ && final(self).total_stake_shares == old(self).total_stake_shares
                        }
                    },
                    None => final(self).accounts@ == old(self).accounts@ && final(self).total_stake_shares == old(self).total_stake_shares,
                }),
            },
    {
        // busy locks must be cleared in the stored state first: this method
        // runs after the cross-contract call and must not abort
        self.busy_guard.release(account_id);
        match outcome {
            PromiseOutcome::Successful(payload) => {
                match parse_quoted_u128(payload) {
                    Some(num_shares) => {
                        match self.total_stake_shares.checked_add(num_shares) {
                            Some(new_total) => {
                                // register the shares received, on the
                                // contract total and on the account
                                let mut account = self.internal_get_account(account_id);
                                proof {
                                    lemma_account_shares_le_sum(self.accounts@, account_id@);
                                }
                                self.total_stake_shares = new_total;
                                account.stake_shares = account.stake_shares + num_shares;
                                self.internal_save_account(account_id, &account);
                            },
                            None => {
                                // the totals cannot take the reported shares:
                                // credit nothing rather than trap
                            },
                        }
                    },
                    None => {
                        // promise ok but no decodable result — should not
                        // happen; nothing is credited
                    },
                }
                None
            },
            PromiseOutcome::Failed => {
                // stake at the pool failed: return the NEAR to the
                // originating lockup account
                Some(TransferAction { receiver_id: account_id.clone(), amount: deposited_amount })
            },
        }
    }

    // =============
    // == UNSTAKE ==
    // =============
    /// Unstakes the account's whole share balance. The resulting currency
    /// becomes available for withdrawal a few epochs later.
    pub fn unstake_all(&mut self, account_id: &AccountId) -> (r: Result<
        PoolRequest,
        StakingError,
    >)
        requires
            old(self).wf(),
        ensures
            final(self).wf(),
            r is Ok <==> (old(self).spec_account(account_id@).stake_shares > 0 && !old(self).busy_guard.spec_holds(account_id@)),
            r is Err ==> *final(self) == *old(self),
            old(self).spec_account(account_id@).stake_shares == 0 ==> r == Err::<
                PoolRequest,
                StakingError,
            >(StakingError::ZeroAmount),
            old(self).spec_account(account_id@).stake_shares > 0 && old(
                self,
            ).busy_guard.spec_holds(account_id@) ==> r == Err::<PoolRequest, StakingError>(
                StakingError::Busy,
            ),
            r is Ok ==> r == Ok::<PoolRequest, StakingError>(
                (PoolRequest::UnstakeFromLockupShares {
                    lockup_account_id: *account_id,
                    shares: old(self).spec_account(account_id@).stake_shares,
                }),
            ) && final(self).busy_guard.spec_holds(account_id@) && *final(self) == (
            StakingContract { busy_guard: final(self).busy_guard, ..*old(self) }),
            forall|k: Seq<char>|
                k != account_id@ ==> final(self).busy_guard.spec_holds(k) == old(self).busy_guard.spec_holds(k),
    {
        let account = self.internal_get_account(account_id);
        self.inner_unstake_shares(account_id, account.stake_shares)
    }

    /// Unstakes the given currency amount, converted to shares at the cached
    /// quote. Because the share price only grows with staking rewards, the
    /// amount finally withdrawn can be higher than requested — never lower.
    pub fn unstake(&mut self, account_id: &AccountId, amount: Balance) -> (r: Result<
        PoolRequest,
        StakingError,
    >)
        requires
            old(self).wf(),
        ensures
            final(self).wf(),
            ({
                let shares = spec_currency_to_shares(amount, old(self).share_near_price);
                &&& r is Ok <==> (0 < shares <= old(self).spec_account(account_id@).stake_shares
                    && !old(self).busy_guard.spec_holds(account_id@))
                &&& r is Err ==> *final(self) == *old(self)
                &&& shares == 0 ==> r == Err::<PoolRequest, StakingError>(StakingError::ZeroAmount)
                &&& shares > old(self).spec_account(account_id@).stake_shares ==> r == Err::<
                    PoolRequest,
                    StakingError,
                >(StakingError::NotEnoughStakedBalance)
                &&& 0 < shares <= old(self).spec_account(account_id@).stake_shares && old(
                    self,
                ).busy_guard.spec_holds(account_id@) ==> r == Err::<PoolRequest, StakingError>(
                    StakingError::Busy,
                )
                &&& r is Ok ==> r == Ok::<PoolRequest, StakingError>(
                    (PoolRequest::UnstakeFromLockupShares {
                        lockup_account_id: *account_id,
                        shares: shares as u128,
                    }),
                ) && final(self).busy_guard.spec_holds(account_id@) && *final(self) == (
                StakingContract { busy_guard: final(self).busy_guard, ..*old(self) })
            }),
            forall|k: Seq<char>|
                k != account_id@ ==> final(self).busy_guard.spec_holds(k) == old(self).busy_guard.spec_holds(k),
    {
        proof {
            lemma_currency_to_shares_le_amount(amount, self.share_near_price);
        }
        let shares = mul_div(amount, ONE_NEAR, self.share_near_price);
        self.inner_unstake_shares(account_id, shares)
    }

    /// The shared unstake path: a positive share count within the account's
    /// balance is required; the account is marked busy and the unstake call
    /// handed back. Nothing is debited yet — the debit happens only in the
    /// callback, on confirmed success, so a failure needs no rollback.
    fn inner_unstake_shares(&mut self, account_id: &AccountId, num_shares: NumStakeShares) -> (r:
        Result<PoolRequest, StakingError>)
        requires
            old(self).wf(),
        ensures
            final(self).wf(),
            r is Ok <==> (0 < num_shares <= old(self).spec_account(account_id@).stake_shares
                && !old(self).busy_guard.spec_holds(account_id@)),
            r is Err ==> *final(self) == *old(self),
            num_shares == 0 ==> r == Err::<PoolRequest, StakingError>(StakingError::ZeroAmount),
            num_shares > old(self).spec_account(account_id@).stake_shares ==> r == Err::<
                PoolRequest,
                StakingError,
            >(StakingError::NotEnoughStakedBalance),
            0 < num_shares <= old(self).spec_account(account_id@).stake_shares && old(self).busy_guard.spec_holds(account_id@) ==> r == Err::<PoolRequest, StakingError>(
                StakingError::Busy,
            ),
            r is Ok ==> r == Ok::<PoolRequest, StakingError>(
                (PoolRequest::UnstakeFromLockupShares {
                    lockup_account_id: *account_id,
                    shares: num_shares,
                }),
            ) && final(self).busy_guard.spec_holds(account_id@) && *final(self) == (
            StakingContract { busy_guard: final(self).busy_guard, ..*old(self) }),
            forall|k: Seq<char>|
                k != account_id@ ==> final(self).busy_guard.spec_holds(k) == old(self).busy_guard.spec_holds(k),
    {
        if num_shares == 0 {
            return Err(StakingError::ZeroAmount);
        }
        let account = self.internal_get_account(account_id);
        if account.stake_shares < num_shares {
            return Err(StakingError::NotEnoughStakedBalance);
        }
        // avoid re-entry while the pool call is in flight
        match self.busy_guard.acquire(account_id) {
            Err(e) => Err(e),
            Ok(()) => Ok(
                PoolRequest::UnstakeFromLockupShares {
                    lockup_account_id: account_id.clone(),
                    shares: num_shares,
                },
            ),
        }
    }

    /// Settles an unstake. The guard is cleared first, unconditionally. On
    /// success the payload carries the currency now unstaked in the pool and
    /// the epoch at which it unlocks: the shares are debited from the
    /// account and the contract total, the currency is credited as pending
    /// in the pool, and the unlock epoch — supplied by the pool, which knows
    /// its own schedule — is installed. A payload that does not decode, or a
    /// debit the ledger cannot take, changes nothing. On failure the shares
    /// were never debited, so no rollback is needed.
    pub fn after_unstake_shares(
        &mut self,
        account_id: &AccountId,
        num_shares: NumStakeShares,
        outcome: &PromiseOutcome,
    )
        requires
            old(self).wf(),
        ensures
            final(self).wf(),
            !final(self).busy_guard.spec_holds(account_id@),
            forall|k: Seq<char>|
                k != account_id@ ==> final(self).busy_guard.spec_holds(k) == old(self).busy_guard.spec_holds(k),
            Self::same_config(*old(self), *final(self)),
            match outcome {
                PromiseOutcome::Failed => final(self).accounts@ == old(self).accounts@ && final(self).total_stake_shares == old(self).total_stake_shares,
                PromiseOutcome::Successful(payload) => match spec_quoted_pair(payload@) {
                    Some(decoded) => {
                        let a = old(self).spec_account(account_id@);
                        if num_shares <= a.stake_shares && a.unstaked_in_metapool + decoded.0
                            <= u128::MAX {
                            &&& final(self).spec_account(account_id@) == stored_form(
                                Account {
                                    stake_shares: (a.stake_shares - num_shares) as u128,
                                    unstaked_in_metapool: (a.unstaked_in_metapool
                                        + decoded.0) as u128,
                                    unstaked_available_epoch_height: decoded.1,
                                    ..a
                                },
                            )
                            &&& forall|k: Seq<char>|
                                k != account_id@ ==> final(self).spec_account(k) == old(self).spec_account(k)
                            &&& final(self).total_stake_shares == old(self).total_stake_shares
                                - num_shares
                        } else {
                            final(self).accounts@ == old(self).accounts@ && final(self).total_stake_shares == old(self).total_stake_shares
                        }
                    },
                    None => final(self).accounts@ == old(self).accounts@ && final(self).total_stake_shares == old(self).total_stake_shares,
                },
            },
    {
        // clear the busy lock first: this method must not abort
        self.busy_guard.release(account_id);
        match outcome {
            PromiseOutcome::Successful(payload) => {
                match parse_quoted_pair(payload) {
                    Some(decoded) => {
                        let unstaked_nears = decoded.0;
                        let unstaked_available_epoch_height = decoded.1;
                        let mut account = self.internal_get_account(account_id);
                        if num_shares <= account.stake_shares {
                            match account.unstaked_in_metapool.checked_add(unstaked_nears) {
                                Some(new_pending) => {
                                    proof {
                                        lemma_account_shares_le_sum(self.accounts@, account_id@);
                                    }
                                    // register the successful unstake, on
                                    // the contract total and on the account
                                    self.total_stake_shares = self.total_stake_shares - num_shares;
                                    account.stake_shares = account.stake_shares - num_shares;
                                    account.unstaked_in_metapool = new_pending;
                                    account.unstaked_available_epoch_height =
                                        unstaked_available_epoch_height;
                                    self.internal_save_account(account_id, &account);
                                },
                                None => {
                                    // pending balance cannot take the
                                    // reported currency: absorb, do not trap
                                },
                            }
                        }
                        // a share debit beyond the account's balance is
                        // absorbed the same way
                    },
                    None => {
                        // promise ok but no decodable result — should not
                        // happen; nothing is registered
                    },
                }
            },
            PromiseOutcome::Failed => {
                // unstake at the pool failed: nothing was debited before the
                // call, so clearing the guard is the whole rollback
            },
        }
    }

    // ==============
    // == WITHDRAW ==
    // ==============
    /// Withdraws the account's entire unstaked balance, local and pending in
    /// the pool together. Allowed only once the unlock epoch is reached.
    pub fn withdraw_all(&mut self, account_id: &AccountId, current_epoch_height: EpochHeight)
        -> (r: Result<WithdrawRequest, StakingError>)
        requires
            old(self).wf(),
        ensures
            final(self).wf(),
            ({
                let a = old(self).spec_account(account_id@);
                if a.unstaked + a.unstaked_in_metapool > u128::MAX {
                    r == Err::<WithdrawRequest, StakingError>(StakingError::BalanceOverflow)
                        && *final(self) == *old(self)
                } else {
                    Self::spec_withdraw_contract(
                        *old(self),
                        *final(self),
                        account_id@,
                        (a.unstaked + a.unstaked_in_metapool) as u128,
                        current_epoch_height,
                        r,
                    )
                }
            }),
    {
        let account = self.internal_get_account(account_id);
        match account.unstaked.checked_add(account.unstaked_in_metapool) {
            Some(total) => self.perform_withdraw(account_id, total, current_epoch_height),
            None => Err(StakingError::BalanceOverflow),
        }
    }

    /// Withdraws the given amount. Allowed only once the unlock epoch is
    /// reached.
    pub fn withdraw(
        &mut self,
        account_id: &AccountId,
        amount: Balance,
        current_epoch_height: EpochHeight,
    ) -> (r: Result<WithdrawRequest, StakingError>)
        requires
            old(self).wf(),
        ensures
            final(self).wf(),
            Self::spec_withdraw_contract(
                *old(self),
                *final(self),
                account_id@,
                amount,
                current_epoch_height,
                r,
            ),
    {
        self.perform_withdraw(account_id, amount, current_epoch_height)
    }

    /// What a withdrawal does, shared by `withdraw` and `withdraw_all`.
    ///
    /// A positive amount within the account's combined unstaked balances is
    /// required, and the unlock delay applies to all of it — a pending
    /// unstake locks the locally held part too, mirroring the reference
    /// protocol. If the local balance covers the request the transfer is
    /// purely local and needs no guard; otherwise the account is marked busy
    /// and the whole pending-in-pool balance is retrieved first.
    pub open spec fn spec_withdraw_contract(
        pre: Self,
        post: Self,
        id: Seq<char>,
        amount: u128,
        current_epoch_height: u64,
        r: Result<WithdrawRequest, StakingError>,
    ) -> bool {
        let a = pre.spec_account(id);
        &&& (r is Ok <==> (0 < amount <= a.unstaked + a.unstaked_in_metapool
            && a.unstaked_available_epoch_height <= current_epoch_height && (amount <= a.unstaked
            || !pre.busy_guard.spec_holds(id))))
        &&& (r is Err ==> post == pre)
        &&& (amount == 0 ==> r == Err::<WithdrawRequest, StakingError>(StakingError::ZeroAmount))
        &&& (amount > a.unstaked + a.unstaked_in_metapool ==> r == Err::<
            WithdrawRequest,
            StakingError,
        >(StakingError::NotEnoughUnstakedBalance))
        &&& (0 < amount <= a.unstaked + a.unstaked_in_metapool
            && a.unstaked_available_epoch_height > current_epoch_height ==> r == Err::<
            WithdrawRequest,
            StakingError,
        >(StakingError::UnstakeDelayNotOver))
        &&& (a.unstaked < amount <= a.unstaked + a.unstaked_in_metapool
            && a.unstaked_available_epoch_height <= current_epoch_height
            && pre.busy_guard.spec_holds(id) ==> r == Err::<WithdrawRequest, StakingError>(
            StakingError::Busy,
        ))
        &&& (r is Ok && amount <= a.unstaked ==> ({
            // purely local: debit and transfer synchronously, no pool call
            &&& (r matches Ok(WithdrawRequest::Local(t)) && t.receiver_id@ == id && t.amount
                == amount)
            &&& post.spec_account(id) == stored_form(
                Account { unstaked: (a.unstaked - amount) as u128, ..a },
            )
            &&& (forall|k: Seq<char>| k != id ==> post.spec_account(k) == pre.spec_account(k))
            &&& post.total_stake_shares == pre.total_stake_shares
            &&& post.busy_guard == pre.busy_guard
            &&& Self::same_config(pre, post)
        }))
        &&& (r is Ok && amount > a.unstaked ==> ({
            // the pool holds part of it: retrieve everything pending first
            &&& (r matches Ok(
                WithdrawRequest::FromPool(
                    PoolRequest::WithdrawToLockup { lockup_account_id: l, amount: retrieve },
                ),
            ) && l@ == id && retrieve == a.unstaked_in_metapool)
            &&& post.busy_guard.spec_holds(id)
            &&& post == (StakingContract { busy_guard: post.busy_guard, ..pre })
        }))
        &&& (forall|k: Seq<char>|
            k != id ==> post.busy_guard.spec_holds(k) == pre.busy_guard.spec_holds(k))
    }

    fn perform_withdraw(
        &mut self,
        account_id: &AccountId,
        amount: Balance,
        current_epoch_height: EpochHeight,
    ) -> (r: Result<WithdrawRequest, StakingError>)
        requires
            old(self).wf(),
        ensures
            final(self).wf(),
            Self::spec_withdraw_contract(
                *old(self),
                *final(self),
                account_id@,
                amount,
                current_epoch_height,
                r,
            ),
    {
        if amount == 0 {
            return Err(StakingError::ZeroAmount);
        }
        let account = self.internal_get_account(account_id);
        // does the account hold enough, locally and in the pool together?
        if amount > account.unstaked && amount - account.unstaked > account.unstaked_in_metapool {
            return Err(StakingError::NotEnoughUnstakedBalance);
        }
        // the reference protocol locks every balance while an unstake is
        // pending: the delay is enforced even when `unstaked` alone would
        // cover the request
        if account.unstaked_available_epoch_height > current_epoch_height {
            return Err(StakingError::UnstakeDelayNotOver);
        }
        if amount <= account.unstaked {
            // purely local: debit and hand back a synchronous transfer
            let mut updated = account;
            updated.unstaked = account.unstaked - amount;
            self.internal_save_account(account_id, &updated);
            Ok(WithdrawRequest::Local(TransferAction { receiver_id: account_id.clone(), amount }))
        } else {
            // part of it sits in the pool: mark busy and retrieve everything
            // pending; the callback merges, debits and transfers
            match self.busy_guard.acquire(account_id) {
                Err(e) => Err(e),
                Ok(()) => Ok(
                    WithdrawRequest::FromPool(
                        PoolRequest::WithdrawToLockup {
                            lockup_account_id: account_id.clone(),
                            amount: account.unstaked_in_metapool,
                        },
                    ),
                ),
            }
        }
    }

    /// Settles a pool retrieval for a withdrawal. The guard is cleared
    /// first, unconditionally. On success the retrieved currency is merged
    /// into the local balance, the pending-in-pool balance is zeroed, and
    /// `min(total_requested, merged balance)` is debited and transferred —
    /// never more than is actually on hand, so a short retrieval is absorbed
    /// and the remainder must be withdrawn again later. On failure nothing
    /// changes: the funds stay parked at the pool, recoverable by retrying.
    pub fn after_metapool_withdraw_to_lockup(
        &mut self,
        account_id: &AccountId,
        total_requested: Balance,
        outcome: &PromiseOutcome,
    ) -> (r: Option<TransferAction>)
        requires
            old(self).wf(),
        ensures
            final(self).wf(),
            !final(self).busy_guard.spec_holds(account_id@),
            forall|k: Seq<char>|
                k != account_id@ ==> final(self).busy_guard.spec_holds(k) == old(self).busy_guard.spec_holds(k),
            Self::same_config(*old(self), *final(self)),
            match outcome {
                PromiseOutcome::Failed => r is None && final(self).accounts@ == old(self).accounts@
                    && final(self).total_stake_shares == old(self).total_stake_shares,
                PromiseOutcome::Successful(_) => {
                    let a = old(self).spec_account(account_id@);
                    if a.unstaked + a.unstaked_in_metapool <= u128::MAX {
                        let merged = (a.unstaked + a.unstaked_in_metapool) as u128;
                        let to_send = if total_requested <= merged {
                            total_requested
                        } else {
                            merged
                        };
                        &&& r == Some(
                            (TransferAction { receiver_id: *account_id, amount: to_send }),
                        )
                        &&& final(self).spec_account(account_id@) == stored_form(
                            Account {
                                unstaked: (merged - to_send) as u128,
                                unstaked_in_metapool: 0,
                                ..a
                            },
                        )
                        &&& forall|k: Seq<char>|
                            k != account_id@ ==> final(self).spec_account(k) == old(self).spec_account(k)
                        &&& final(self).total_stake_shares == old(self).total_stake_shares
                    } else {
                        r is None && final(self).accounts@ == old(self).accounts@ && final(self).total_stake_shares == old(self).total_stake_shares
                    }
                },
            },
    {
        // clear the busy lock first: this method must not abort
        self.busy_guard.release(account_id);
        match outcome {
            PromiseOutcome::Successful(_) => {
                let mut account = self.internal_get_account(account_id);
                match account.unstaked.checked_add(account.unstaked_in_metapool) {
                    Some(merged) => {
                        // the pool has sent the pending currency: merge it,
                        // send at most what is actually on hand
                        let to_send = if total_requested <= merged {
                            total_requested
                        } else {
                            merged
                        };
                        account.unstaked = merged - to_send;
                        account.unstaked_in_metapool = 0;
                        self.internal_save_account(account_id, &account);
                        Some(
                            TransferAction { receiver_id: account_id.clone(), amount: to_send },
                        )
                    },
                    None => {
                        // the merge does not fit a balance: absorb, do not
                        // trap
                        None
                    },
                }
            },
            PromiseOutcome::Failed => {
                // the retrieval failed; the funds remain parked at the pool
                // and a later withdraw can retry
                None
            },
        }
    }
}

} // verus!
