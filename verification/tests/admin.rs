//! Initialization, owner methods, the quote cache and the identity helpers.

use lockup_stake_metapool::staking::{PoolRequest, PromiseOutcome};
use lockup_stake_metapool::test_only::ACCELERATE_ACCOUNT_ID;
use lockup_stake_metapool::utils::{assert_is_lockup_account, is_lockup_account, is_valid_account_id};
use lockup_stake_metapool::{StakingContract, StakingError, ONE_NEAR};

fn new_contract() -> StakingContract {
    StakingContract::new("owner.near".to_string(), "meta-pool.near".to_string()).unwrap()
}

fn quoted(n: u128) -> Vec<u8> {
    format!("\"{}\"", n).into_bytes()
}

#[test]
fn new_checks_the_owner_identity() {
    let r = StakingContract::new("Owner.near".to_string(), "meta-pool.near".to_string());
    assert_eq!(r.unwrap_err(), StakingError::InvalidAccountId);
    let c = new_contract();
    assert_eq!(c.owner_id, "owner.near".to_string());
    assert_eq!(c.total_stake_shares, 0);
    assert_eq!(c.reserved, 0);
    assert_eq!(c.accounts.len(), 0);
    assert!(!c.paused);
    assert!(!c.contract_busy);
    assert_eq!(c.meta_pool_contract_id, "meta-pool.near".to_string());
    assert_eq!(c.share_near_price, ONE_NEAR);
    assert_eq!(c.meta_pool_fee_bp, 400);
}

#[test]
fn set_owner_id_demands_confirmation_and_ownership() {
    let mut c = new_contract();
    let owner = "owner.near".to_string();
    let mallory = "mallory.near".to_string();
    let next = "heir.near".to_string();
    assert_eq!(
        c.set_owner_id(&owner, 0, &next).unwrap_err(),
        StakingError::OneYoctoRequired
    );
    assert_eq!(
        c.set_owner_id(&owner, 1, &"BAD".to_string()).unwrap_err(),
        StakingError::InvalidAccountId
    );
    assert_eq!(
        c.set_owner_id(&mallory, 1, &next).unwrap_err(),
        StakingError::NotOwner
    );
    assert_eq!(c.owner_id, owner);
    c.set_owner_id(&owner, 1, &next).unwrap();
    assert_eq!(c.owner_id, next);
}

#[test]
fn contract_busy_flag_is_owner_resettable() {
    let mut c = new_contract();
    assert!(c.assert_not_busy().is_ok());
    c.contract_busy = true;
    assert_eq!(c.assert_not_busy().unwrap_err(), StakingError::Busy);
    assert_eq!(
        c.set_not_busy(&"mallory.near".to_string()).unwrap_err(),
        StakingError::NotOwner
    );
    assert!(c.contract_busy);
    c.set_not_busy(&"owner.near".to_string()).unwrap();
    assert!(!c.contract_busy);
    assert!(c.assert_not_busy().is_ok());
}

#[test]
fn ping_schedules_both_quote_fetches() {
    let mut c = new_contract();
    let (first, second) = c.ping();
    assert!(matches!(first, PoolRequest::GetStNearPrice));
    assert!(matches!(second, PoolRequest::GetRewardFeeBp));
    assert_eq!(c.share_near_price, ONE_NEAR);
    assert_eq!(c.meta_pool_fee_bp, 400);
}

#[test]
fn price_callback_installs_only_sane_quotes() {
    let mut c = new_contract();
    c.after_get_st_near_price(&PromiseOutcome::Successful(quoted(3 * ONE_NEAR)));
    assert_eq!(c.share_near_price, 3 * ONE_NEAR);
    // a failed fetch leaves the previous cached value untouched
    c.after_get_st_near_price(&PromiseOutcome::Failed);
    assert_eq!(c.share_near_price, 3 * ONE_NEAR);
    // so does an undecodable payload
    c.after_get_st_near_price(&PromiseOutcome::Successful(b"oops".to_vec()));
    assert_eq!(c.share_near_price, 3 * ONE_NEAR);
    // and a quote below one NEAR per share, which the pool cannot produce
    c.after_get_st_near_price(&PromiseOutcome::Successful(quoted(ONE_NEAR - 1)));
    assert_eq!(c.share_near_price, 3 * ONE_NEAR);
}

#[test]
fn fee_callback_installs_decodable_quotes() {
    let mut c = new_contract();
    c.after_get_reward_fee_bp(&PromiseOutcome::Successful(b"250".to_vec()));
    assert_eq!(c.meta_pool_fee_bp, 250);
    c.after_get_reward_fee_bp(&PromiseOutcome::Failed);
    assert_eq!(c.meta_pool_fee_bp, 250);
    c.after_get_reward_fee_bp(&PromiseOutcome::Successful(b"99999".to_vec()));
    assert_eq!(c.meta_pool_fee_bp, 250);
}

#[test]
fn accelerate_unstake_moves_the_unlock_epoch() {
    let mut c = new_contract();
    assert_eq!(
        c.accelerate_unstake(9).unwrap_err(),
        StakingError::AccountNotFound
    );
    let id = ACCELERATE_ACCOUNT_ID.to_string();
    c.internal_deposit(&id, 5).unwrap();
    c.accelerate_unstake(9).unwrap();
    assert_eq!(c.get_account(&id).unstaked_available_epoch_height, 9);
}

#[test]
fn rejections_carry_their_messages() {
    assert_eq!(
        StakingError::NotSupported.message(),
        "not supported, please use deposit_and_stake"
    );
    assert_eq!(
        StakingError::MinimumDepositRequired.message(),
        "minimum deposit amount is 10 NEAR"
    );
    assert_eq!(StakingError::Busy.message(), "Busy. Try again later");
    assert_eq!(
        StakingError::UnstakeDelayNotOver.message(),
        "The unstaked balance is not yet available due to unstaking delay"
    );
}

#[test]
fn lockup_account_suffixes() {
    assert!(is_lockup_account("alice.lockup.near"));
    assert!(is_lockup_account("274e9817.lockupy.testnet"));
    assert!(is_lockup_account(".lockup.near"));
    assert!(!is_lockup_account("alice.near"));
    assert!(!is_lockup_account("lockup.near"));
    assert!(!is_lockup_account("alice.lockup.nearx"));
    assert!(!is_lockup_account(""));
    assert!(assert_is_lockup_account(&"alice.lockup.near".to_string()).is_ok());
    assert_eq!(
        assert_is_lockup_account(&"alice.near".to_string()).unwrap_err(),
        StakingError::InvalidAccountId
    );
}

#[test]
fn account_identity_rules() {
    assert!(is_valid_account_id("ab"));
    assert!(is_valid_account_id("meta-pool.near"));
    assert!(is_valid_account_id("a_b-c.d1"));
    assert!(!is_valid_account_id("a"));
    assert!(!is_valid_account_id(""));
    assert!(!is_valid_account_id("Ab"));
    assert!(!is_valid_account_id("a..b"));
    assert!(!is_valid_account_id("a-_b"));
    assert!(!is_valid_account_id(".ab"));
    assert!(!is_valid_account_id("ab."));
    assert!(!is_valid_account_id("a b"));
    // 64 characters is the longest allowed identity
    let longest = "a".repeat(64);
    assert!(is_valid_account_id(&longest));
    let too_long = "a".repeat(65);
    assert!(!is_valid_account_id(&too_long));
}
