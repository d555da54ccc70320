//! The re-entrance guard on its own: exclusion, rejection, idempotent
//! release.

use lockup_stake_metapool::guard::Guard;
use lockup_stake_metapool::StakingError;

#[test]
fn guard_excludes_second_acquire() {
    let mut g = Guard::new();
    let a = "alice.lockup.near".to_string();
    assert!(!g.holds(&a));
    g.acquire(&a).unwrap();
    assert!(g.holds(&a));
    // the scope is held by at most one operation: a second acquire on the
    // same scope is rejected, not queued
    assert_eq!(g.acquire(&a).unwrap_err(), StakingError::Busy);
    assert!(g.holds(&a));
}

#[test]
fn guard_scopes_are_independent() {
    let mut g = Guard::new();
    let a = "alice.lockup.near".to_string();
    let b = "bob.lockup.near".to_string();
    g.acquire(&a).unwrap();
    g.acquire(&b).unwrap();
    g.release(&a);
    assert!(!g.holds(&a));
    assert!(g.holds(&b));
}

#[test]
fn guard_release_is_idempotent() {
    let mut g = Guard::new();
    let a = "alice.lockup.near".to_string();
    // releasing a scope that is not held is a no-op, never a failure
    g.release(&a);
    g.acquire(&a).unwrap();
    g.release(&a);
    g.release(&a);
    assert!(!g.holds(&a));
    // after a settled round trip the scope can be acquired again
    g.acquire(&a).unwrap();
    assert!(g.holds(&a));
}
