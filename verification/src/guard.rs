//! The re-entrance guard.
//!
//! A scope (here: an account identity) must be marked busy before an
//! asynchronous call is issued on its behalf, and must be cleared exactly once
//! when that call's outcome arrives, whatever the outcome is. Acquiring an
//! already-held scope is a deliberate, user-visible rejection ("try again
//! later"), never a queued retry; releasing is idempotent and can never fail,
//! so a callback may always clear the guard before any fallible step.

use vstd::prelude::*;

use crate::{AccountId, StakingError};

verus! {

/// Whether some element of `s` names the scope `k`.
pub open spec fn seq_holds_key(s: Seq<AccountId>, k: Seq<char>) -> bool {
    exists|i: int| 0 <= i < s.len() && s[i]@ == k
}

/// The set of scopes that currently have an operation in flight. Each scope
/// appears at most once, so it is held by at most one operation at a time.
#[derive(Debug)]
pub struct Guard {
    pub held: Vec<AccountId>,
}

impl Guard {
    /// Whether the scope named `key` is currently held.
    pub open spec fn spec_holds(&self, key: Seq<char>) -> bool {
        seq_holds_key(self.held@, key)
    }

    /// No scope is recorded twice.
    pub open spec fn wf(&self) -> bool {
        forall|i: int, j: int| 0 <= i < j < self.held@.len() ==> self.held@[i]@ != self.held@[j]@
    }

    pub fn new() -> (g: Guard)
        ensures
            g.wf(),
            forall|k: Seq<char>| !g.spec_holds(k),
    {
        Guard { held: Vec::new() }
    }

    fn find(&self, key: &AccountId) -> (r: Option<usize>)
        ensures
            match r {
                Some(i) => i < self.held@.len() && self.held@[i as int]@ == key@,
                None => !self.spec_holds(key@),
            },
    {
        let mut i: usize = 0;
        while i < self.held.len()
            invariant
                i <= self.held@.len(),
                forall|j: int| 0 <= j < i ==> self.held@[j]@ != key@,
            decreases self.held@.len() - i,
        {
            if self.held[i] == *key {
                return Some(i);
            }
            i = i + 1;
        }
        None
    }

    /// Whether the scope named `key` is currently held.
    pub fn holds(&self, key: &AccountId) -> (r: bool)
        ensures
            r == self.spec_holds(key@),
    {
        self.find(key).is_some()
    }

    /// Marks the scope busy. Rejected, without any state change, exactly when
    /// the scope is already held: at most one operation is in flight per
    /// scope.
    pub fn acquire(&mut self, key: &AccountId) -> (r: Result<(), StakingError>)
        requires
            old(self).wf(),
        ensures
            final(self).wf(),
            r is Ok <==> !old(self).spec_holds(key@),
            r is Err ==> r == Err::<(), StakingError>(StakingError::Busy) && *final(self)
                == *old(self),
            r is Ok ==> final(self).spec_holds(key@),
            forall|k: Seq<char>|
                k != key@ ==> #[trigger] final(self).spec_holds(k) == old(self).spec_holds(k),
    {
        match self.find(key) {
            Some(_) => Err(StakingError::Busy),
            None => {
                let ghost pre = self.held@;
                self.held.push(key.clone());
                proof {
                    assert(self.held@[pre.len() as int]@ == key@);
                    assert forall|k: Seq<char>| k != key@ implies #[trigger] self.spec_holds(k)
                        == seq_holds_key(pre, k) by {
                        if seq_holds_key(self.held@, k) {
                            let j = choose|j: int|
                                0 <= j < self.held@.len() && self.held@[j]@ == k;
                            assert(j < pre.len());
                            assert(pre[j]@ == k);
                        }
                        if seq_holds_key(pre, k) {
                            let j = choose|j: int| 0 <= j < pre.len() && pre[j]@ == k;
                            assert(self.held@[j]@ == k);
                        }
                    }
                }
                Ok(())
            },
        }
    }

    /// Clears the scope. Idempotent and total: clearing a scope that is not
    /// held is a no-op, so a callback can always release its guard first.
    pub fn release(&mut self, key: &AccountId)
        requires
            old(self).wf(),
        ensures
            final(self).wf(),
            !final(self).spec_holds(key@),
            forall|k: Seq<char>|
                k != key@ ==> #[trigger] final(self).spec_holds(k) == old(self).spec_holds(k),
    {
        match self.find(key) {
            Some(i) => {
                let ghost pre = self.held@;
                self.held.remove(i);
                proof {
                    lemma_held_remove(pre, i as int, self.held@);
                }
            },
            None => {},
        }
    }
}

/// Law: a scope is held by at most one in-flight operation. A well-formed
/// guard records each scope at most once — together with `acquire`, which
/// admits a scope only while it is absent and rejects it otherwise, and with
/// the callbacks, each of which leaves its scope clear, no two operations can
/// ever hold the same scope.
pub proof fn lemma_at_most_one_holder(g: &Guard, i: int, j: int)
    requires
        g.wf(),
        0 <= i < g.held@.len(),
        0 <= j < g.held@.len(),
        g.held@[i]@ == g.held@[j]@,
    ensures
        i == j,
{
}

/// Removing the one record of a scope leaves every other scope's membership
/// unchanged, and the removed scope absent.
proof fn lemma_held_remove(pre: Seq<AccountId>, i: int, post: Seq<AccountId>)
    requires
        forall|p: int, q: int| 0 <= p < q < pre.len() ==> pre[p]@ != pre[q]@,
        0 <= i < pre.len(),
        post =~= pre.remove(i),
    ensures
        forall|p: int, q: int| 0 <= p < q < post.len() ==> post[p]@ != post[q]@,
        !seq_holds_key(post, pre[i]@),
        forall|k: Seq<char>|
            k != pre[i]@ ==> #[trigger] seq_holds_key(post, k) == seq_holds_key(pre, k),
{
    assert forall|j: int| 0 <= j < post.len() implies post[j]@ != pre[i]@ by {
        if j < i {
            assert(post[j] == pre[j]);
        } else {
            assert(post[j] == pre[j + 1]);
        }
    }
    assert forall|k: Seq<char>| k != pre[i]@ implies #[trigger] seq_holds_key(post, k)
        == seq_holds_key(pre, k) by {
        if seq_holds_key(post, k) {
            let j = choose|j: int| 0 <= j < post.len() && post[j]@ == k;
            if j < i {
                assert(pre[j]@ == k);
            } else {
                assert(pre[j + 1]@ == k);
            }
        }
        if seq_holds_key(pre, k) {
            let j = choose|j: int| 0 <= j < pre.len() && pre[j]@ == k;
            if j < i {
                assert(post[j]@ == k);
            } else {
                assert(j != i);
                assert(post[j - 1]@ == k);
            }
        }
    }
}

} // verus!
