//! End-to-end scenarios: each one drives the contract through an operation
//! and its callback, standing in for the host scheduler.

use lockup_stake_metapool::staking::{PoolRequest, PromiseOutcome, WithdrawRequest};
use lockup_stake_metapool::{StakingContract, StakingError, ONE_NEAR};

fn new_contract() -> StakingContract {
    StakingContract::new("owner.near".to_string(), "meta-pool.near".to_string()).unwrap()
}

fn user() -> String {
    "user1.lockup.near".to_string()
}

fn quoted(n: u128) -> Vec<u8> {
    format!("\"{}\"", n).into_bytes()
}

fn pair(amount: u128, epoch: u64) -> Vec<u8> {
    format!("[\"{}\",\"{}\"]", amount, epoch).into_bytes()
}

/// Stakes 100 units for an account whose ledger record does not exist yet and
/// settles the pool call successfully, leaving `shares` minted at price 1.0.
fn stake_successfully(c: &mut StakingContract, u: &String, amount: u128, shares: u128) {
    let request = c.deposit_and_stake(u, amount).unwrap();
    match request {
        PoolRequest::StakeForLockup {
            lockup_account_id,
            deposit,
        } => {
            assert_eq!(lockup_account_id, *u);
            assert_eq!(deposit, amount);
        }
        _ => panic!("wrong request issued"),
    }
    assert!(c.is_account_busy(u));
    let transfer = c.after_stake_for_lockup(u, amount, &PromiseOutcome::Successful(quoted(shares)));
    assert!(transfer.is_none());
    assert!(!c.is_account_busy(u));
}

#[test]
fn scenario_deposit_and_stake_success() {
    // deposit 100 units and stake; the pool returns 100 shares at price 1.0
    let mut c = new_contract();
    let u = user();
    stake_successfully(&mut c, &u, 100 * ONE_NEAR, 100 * ONE_NEAR);
    let a = c.get_account(&u);
    assert_eq!(a.stake_shares, 100 * ONE_NEAR);
    assert_eq!(a.unstaked_balance, 0);
    assert_eq!(c.total_stake_shares, 100 * ONE_NEAR);
}

#[test]
fn scenario_deposit_and_stake_failure() {
    // same as the success scenario, but the pool call fails: the deposited
    // currency goes back to the caller and the guard is clear
    let mut c = new_contract();
    let u = user();
    let request = c.deposit_and_stake(&u, 100 * ONE_NEAR);
    assert!(request.is_ok());
    assert!(c.is_account_busy(&u));
    let transfer = c
        .after_stake_for_lockup(&u, 100 * ONE_NEAR, &PromiseOutcome::Failed)
        .unwrap();
    assert_eq!(transfer.receiver_id, u);
    assert_eq!(transfer.amount, 100 * ONE_NEAR);
    assert!(!c.is_account_busy(&u));
    let a = c.get_account(&u);
    assert_eq!(a.stake_shares, 0);
    assert_eq!(a.unstaked_balance, 0);
    assert_eq!(a.unstaked_in_metapool, 0);
    assert_eq!(c.total_stake_shares, 0);
    // the account is usable again at once
    assert!(c.deposit_and_stake(&u, 100 * ONE_NEAR).is_ok());
}

#[test]
fn scenario_stake_payload_undecodable() {
    // the pool call succeeded at the protocol level but its payload does not
    // decode: nothing is credited, the guard is clear, nothing is returned
    let mut c = new_contract();
    let u = user();
    c.deposit_and_stake(&u, 50 * ONE_NEAR).unwrap();
    let transfer = c.after_stake_for_lockup(
        &u,
        50 * ONE_NEAR,
        &PromiseOutcome::Successful(b"not a number".to_vec()),
    );
    assert!(transfer.is_none());
    assert!(!c.is_account_busy(&u));
    assert_eq!(c.get_account(&u).stake_shares, 0);
    assert_eq!(c.total_stake_shares, 0);
}

#[test]
fn scenario_deposit_below_minimum() {
    let mut c = new_contract();
    let u = user();
    let r = c.deposit_and_stake(&u, 10 * ONE_NEAR - 1);
    assert_eq!(r.unwrap_err(), StakingError::MinimumDepositRequired);
    assert!(!c.is_account_busy(&u));
}

#[test]
fn scenario_busy_account_rejected() {
    // acquiring the guard while an operation is in flight is rejected
    let mut c = new_contract();
    let u = user();
    c.deposit_and_stake(&u, 100 * ONE_NEAR).unwrap();
    let second = c.deposit_and_stake(&u, 100 * ONE_NEAR);
    assert_eq!(second.unwrap_err(), StakingError::Busy);
    // a different account is not serialized behind it
    let other = "user2.lockup.near".to_string();
    assert!(c.deposit_and_stake(&other, 100 * ONE_NEAR).is_ok());
}

#[test]
fn scenario_unstake_success() {
    // 100 shares held; unstake 50 units at price 1.0 (50 shares); the pool
    // confirms (50, epoch 14)
    let mut c = new_contract();
    let u = user();
    stake_successfully(&mut c, &u, 100 * ONE_NEAR, 100 * ONE_NEAR);
    let request = c.unstake(&u, 50 * ONE_NEAR).unwrap();
    match request {
        PoolRequest::UnstakeFromLockupShares {
            lockup_account_id,
            shares,
        } => {
            assert_eq!(lockup_account_id, u);
            assert_eq!(shares, 50 * ONE_NEAR);
        }
        _ => panic!("wrong request issued"),
    }
    assert!(c.is_account_busy(&u));
    c.after_unstake_shares(
        &u,
        50 * ONE_NEAR,
        &PromiseOutcome::Successful(pair(50 * ONE_NEAR, 14)),
    );
    assert!(!c.is_account_busy(&u));
    let a = c.get_account(&u);
    assert_eq!(a.stake_shares, 50 * ONE_NEAR);
    assert_eq!(a.unstaked_in_metapool, 50 * ONE_NEAR);
    assert_eq!(a.unstaked_available_epoch_height, 14);
    assert_eq!(c.total_stake_shares, 50 * ONE_NEAR);
}

#[test]
fn scenario_unstake_failure_needs_no_rollback() {
    // the debit happens only on confirmed success, so a failed unstake
    // changes nothing beyond the guard
    let mut c = new_contract();
    let u = user();
    stake_successfully(&mut c, &u, 100 * ONE_NEAR, 100 * ONE_NEAR);
    c.unstake(&u, 50 * ONE_NEAR).unwrap();
    c.after_unstake_shares(&u, 50 * ONE_NEAR, &PromiseOutcome::Failed);
    assert!(!c.is_account_busy(&u));
    let a = c.get_account(&u);
    assert_eq!(a.stake_shares, 100 * ONE_NEAR);
    assert_eq!(a.unstaked_in_metapool, 0);
    assert_eq!(c.total_stake_shares, 100 * ONE_NEAR);
}

#[test]
fn scenario_unstake_more_than_held() {
    let mut c = new_contract();
    let u = user();
    stake_successfully(&mut c, &u, 100 * ONE_NEAR, 100 * ONE_NEAR);
    let r = c.unstake(&u, 101 * ONE_NEAR);
    assert_eq!(r.unwrap_err(), StakingError::NotEnoughStakedBalance);
    let r = c.unstake_all(&"nobody.lockup.near".to_string());
    assert_eq!(r.unwrap_err(), StakingError::ZeroAmount);
}

#[test]
fn scenario_unstake_at_higher_price() {
    // at a price of 2.0, 50 units convert to 25 shares, rounded down
    let mut c = new_contract();
    let u = user();
    stake_successfully(&mut c, &u, 100 * ONE_NEAR, 50 * ONE_NEAR);
    c.after_get_st_near_price(&PromiseOutcome::Successful(quoted(2 * ONE_NEAR)));
    assert_eq!(c.share_near_price, 2 * ONE_NEAR);
    let request = c.unstake(&u, 50 * ONE_NEAR).unwrap();
    match request {
        PoolRequest::UnstakeFromLockupShares { shares, .. } => {
            assert_eq!(shares, 25 * ONE_NEAR);
        }
        _ => panic!("wrong request issued"),
    }
}

#[test]
fn scenario_withdraw_before_unlock_rejected() {
    // a withdraw attempted before the unlock epoch is rejected with the
    // delay error and no state change
    let mut c = new_contract();
    let u = user();
    stake_successfully(&mut c, &u, 100 * ONE_NEAR, 100 * ONE_NEAR);
    c.unstake(&u, 50 * ONE_NEAR).unwrap();
    c.after_unstake_shares(
        &u,
        50 * ONE_NEAR,
        &PromiseOutcome::Successful(pair(50 * ONE_NEAR, 14)),
    );
    let before = c.get_account(&u);
    let r = c.withdraw(&u, 10 * ONE_NEAR, 13);
    assert_eq!(r.unwrap_err(), StakingError::UnstakeDelayNotOver);
    let after = c.get_account(&u);
    assert_eq!(after.unstaked_balance, before.unstaked_balance);
    assert_eq!(after.unstaked_in_metapool, before.unstaked_in_metapool);
    assert_eq!(after.stake_shares, before.stake_shares);
    assert!(!c.is_account_busy(&u));
    // at the unlock epoch itself the same withdraw goes through
    assert!(c.withdraw(&u, 10 * ONE_NEAR, 14).is_ok());
}

/// Drives an account into the state: `unstaked == 20`, pending in pool
/// `== 40` (in whole NEAR units), everything unlocked from epoch 6 on.
fn account_with_local_20_pending_40(c: &mut StakingContract, u: &String) {
    stake_successfully(c, u, 100 * ONE_NEAR, 100 * ONE_NEAR);
    // unstake 60: pending in pool becomes 60, unlocked from epoch 5
    c.unstake(u, 60 * ONE_NEAR).unwrap();
    c.after_unstake_shares(
        u,
        60 * ONE_NEAR,
        &PromiseOutcome::Successful(pair(60 * ONE_NEAR, 5)),
    );
    // withdraw 40 at epoch 5: retrieves the whole pending 60, sends 40,
    // leaving 20 locally
    let r = c.withdraw(u, 40 * ONE_NEAR, 5).unwrap();
    match r {
        WithdrawRequest::FromPool(PoolRequest::WithdrawToLockup { amount, .. }) => {
            assert_eq!(amount, 60 * ONE_NEAR);
        }
        _ => panic!("expected a pool retrieval"),
    }
    let t = c
        .after_metapool_withdraw_to_lockup(
            u,
            40 * ONE_NEAR,
            &PromiseOutcome::Successful(Vec::new()),
        )
        .unwrap();
    assert_eq!(t.amount, 40 * ONE_NEAR);
    let a = c.get_account(u);
    assert_eq!(a.unstaked_balance, 20 * ONE_NEAR);
    assert_eq!(a.unstaked_in_metapool, 0);
    // unstake 40 more: pending in pool becomes 40, unlocked from epoch 6
    c.unstake(u, 40 * ONE_NEAR).unwrap();
    c.after_unstake_shares(
        u,
        40 * ONE_NEAR,
        &PromiseOutcome::Successful(pair(40 * ONE_NEAR, 6)),
    );
}

#[test]
fn scenario_withdraw_merges_then_debits() {
    // withdraw 50 with local 20 and pending 40: the retrieval returns 40,
    // the merge-then-debit sequence sends min(50, 60) == 50 and leaves 10
    let mut c = new_contract();
    let u = user();
    account_with_local_20_pending_40(&mut c, &u);
    let r = c.withdraw(&u, 50 * ONE_NEAR, 6).unwrap();
    match r {
        WithdrawRequest::FromPool(PoolRequest::WithdrawToLockup {
            lockup_account_id,
            amount,
        }) => {
            assert_eq!(lockup_account_id, u);
            assert_eq!(amount, 40 * ONE_NEAR);
        }
        _ => panic!("expected a pool retrieval"),
    }
    assert!(c.is_account_busy(&u));
    let t = c
        .after_metapool_withdraw_to_lockup(
            &u,
            50 * ONE_NEAR,
            &PromiseOutcome::Successful(Vec::new()),
        )
        .unwrap();
    assert_eq!(t.receiver_id, u);
    assert_eq!(t.amount, 50 * ONE_NEAR);
    assert!(!c.is_account_busy(&u));
    let a = c.get_account(&u);
    assert_eq!(a.unstaked_balance, 10 * ONE_NEAR);
    assert_eq!(a.unstaked_in_metapool, 0);
}

#[test]
fn scenario_withdraw_local_needs_no_guard() {
    let mut c = new_contract();
    let u = user();
    account_with_local_20_pending_40(&mut c, &u);
    // 15 <= 20 sits locally: a synchronous transfer, no pool call
    let r = c.withdraw(&u, 15 * ONE_NEAR, 6).unwrap();
    match r {
        WithdrawRequest::Local(t) => {
            assert_eq!(t.receiver_id, u);
            assert_eq!(t.amount, 15 * ONE_NEAR);
        }
        _ => panic!("expected a local transfer"),
    }
    assert!(!c.is_account_busy(&u));
    assert_eq!(c.get_account(&u).unstaked_balance, 5 * ONE_NEAR);
}

#[test]
fn scenario_withdraw_failure_keeps_funds_parked() {
    let mut c = new_contract();
    let u = user();
    account_with_local_20_pending_40(&mut c, &u);
    c.withdraw(&u, 50 * ONE_NEAR, 6).unwrap();
    let t = c.after_metapool_withdraw_to_lockup(&u, 50 * ONE_NEAR, &PromiseOutcome::Failed);
    assert!(t.is_none());
    assert!(!c.is_account_busy(&u));
    // nothing changed: the same withdraw can be retried later
    let a = c.get_account(&u);
    assert_eq!(a.unstaked_balance, 20 * ONE_NEAR);
    assert_eq!(a.unstaked_in_metapool, 40 * ONE_NEAR);
    assert!(c.withdraw(&u, 50 * ONE_NEAR, 6).is_ok());
}

#[test]
fn scenario_withdraw_insufficient_balance() {
    let mut c = new_contract();
    let u = user();
    account_with_local_20_pending_40(&mut c, &u);
    let r = c.withdraw(&u, 61 * ONE_NEAR, 6);
    assert_eq!(r.unwrap_err(), StakingError::NotEnoughUnstakedBalance);
    let r = c.withdraw(&u, 0, 6);
    assert_eq!(r.unwrap_err(), StakingError::ZeroAmount);
}

#[test]
fn scenario_withdraw_all_takes_everything() {
    let mut c = new_contract();
    let u = user();
    account_with_local_20_pending_40(&mut c, &u);
    let r = c.withdraw_all(&u, 6).unwrap();
    match r {
        WithdrawRequest::FromPool(PoolRequest::WithdrawToLockup { amount, .. }) => {
            assert_eq!(amount, 40 * ONE_NEAR);
        }
        _ => panic!("expected a pool retrieval"),
    }
    let t = c
        .after_metapool_withdraw_to_lockup(
            &u,
            60 * ONE_NEAR,
            &PromiseOutcome::Successful(Vec::new()),
        )
        .unwrap();
    assert_eq!(t.amount, 60 * ONE_NEAR);
    let a = c.get_account(&u);
    assert_eq!(a.unstaked_balance, 0);
    assert_eq!(a.unstaked_in_metapool, 0);
    // all balances zero and no shares: the record is gone from the ledger
    assert_eq!(a.stake_shares, 0);
    assert_eq!(c.accounts.len(), 0);
}

#[test]
fn total_shares_track_the_ledger_sum() {
    // the contract-wide share total equals the sum of the accounts' share
    // counts at every quiescent point
    let mut c = new_contract();
    let u = user();
    let v = "user2.lockup.near".to_string();
    let ledger_sum =
        |c: &StakingContract| c.accounts.iter().map(|(_, a)| a.stake_shares).sum::<u128>();
    assert_eq!(c.total_stake_shares, 0);
    stake_successfully(&mut c, &u, 100 * ONE_NEAR, 100 * ONE_NEAR);
    assert_eq!(c.total_stake_shares, ledger_sum(&c));
    stake_successfully(&mut c, &v, 30 * ONE_NEAR, 30 * ONE_NEAR);
    assert_eq!(c.total_stake_shares, ledger_sum(&c));
    c.unstake(&u, 40 * ONE_NEAR).unwrap();
    c.after_unstake_shares(
        &u,
        40 * ONE_NEAR,
        &PromiseOutcome::Successful(pair(40 * ONE_NEAR, 5)),
    );
    assert_eq!(c.total_stake_shares, ledger_sum(&c));
    assert_eq!(c.total_stake_shares, 90 * ONE_NEAR);
}

#[test]
fn scenario_disabled_operations() {
    let mut c = new_contract();
    assert_eq!(c.deposit().unwrap_err(), StakingError::NotSupported);
    assert_eq!(c.stake(ONE_NEAR).unwrap_err(), StakingError::NotSupported);
    assert_eq!(c.stake_all().unwrap_err(), StakingError::NotSupported);
}
