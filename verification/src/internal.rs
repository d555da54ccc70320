//! The account ledger: lookup, the save choke point, and the local
//! bookkeeping helpers together with their rollbacks.
//!
//! Every mutation of per-account state passes through
//! [`StakingContract::internal_save_account`], which deletes empty records
//! instead of storing them: the ledger holds an account if and only if one of
//! its balance fields is non-zero.

use vstd::prelude::*;

use crate::account::Account;
use crate::{AccountId, Balance, StakingContract, StakingError};

verus! {

/// No two ledger entries carry the same account identity.
pub open spec fn ledger_ids_unique(s: Seq<(AccountId, Account)>) -> bool {
    forall|i: int, j: int| 0 <= i < j < s.len() ==> s[i].0@ != s[j].0@
}

/// The ledger stores no empty account: emptiness triggers deletion on save.
pub open spec fn ledger_no_empty(s: Seq<(AccountId, Account)>) -> bool {
    forall|i: int| 0 <= i < s.len() ==> !(#[trigger] s[i]).1.spec_is_empty()
}

pub open spec fn ledger_wf(s: Seq<(AccountId, Account)>) -> bool {
    ledger_ids_unique(s) && ledger_no_empty(s)
}

/// Whether the ledger holds a record for the given identity.
pub open spec fn ledger_contains(s: Seq<(AccountId, Account)>, id: Seq<char>) -> bool {
    exists|i: int| 0 <= i < s.len() && s[i].0@ == id
}

/// The position of the record for the given identity (meaningful only when
/// `ledger_contains` holds and the identities are unique).
pub open spec fn ledger_index_of(s: Seq<(AccountId, Account)>, id: Seq<char>) -> int {
    choose|i: int| 0 <= i < s.len() && s[i].0@ == id
}

/// The account stored for the given identity, or the zero-valued account when
/// the identity is absent.
pub open spec fn ledger_account(s: Seq<(AccountId, Account)>, id: Seq<char>) -> Account {
    if ledger_contains(s, id) {
        s[ledger_index_of(s, id)].1
    } else {
        Account::spec_default()
    }
}

/// What the ledger answers for an identity after `a` was saved under it: the
/// account itself, unless it was empty and the record was deleted — an absent
/// identity reads back as the zero-valued account.
pub open spec fn stored_form(a: Account) -> Account {
    if a.spec_is_empty() {
        Account::spec_default()
    } else {
        a
    }
}

/// The sum of the stake shares over all ledger entries.
pub open spec fn sum_shares(s: Seq<(AccountId, Account)>) -> int
    decreases s.len(),
{
    if s.len() == 0 {
        0
    } else {
        sum_shares(s.drop_last()) + s.last().1.stake_shares
    }
}

pub proof fn lemma_sum_shares_nonneg(s: Seq<(AccountId, Account)>)
    ensures
        0 <= sum_shares(s),
    decreases s.len(),
{
    if s.len() > 0 {
        lemma_sum_shares_nonneg(s.drop_last());
    }
}

/// Each entry's share count is bounded by the sum over the whole ledger.
pub proof fn lemma_sum_shares_le(s: Seq<(AccountId, Account)>, i: int)
    requires
        0 <= i < s.len(),
    ensures
        s[i].1.stake_shares <= sum_shares(s),
    decreases s.len(),
{
    if i == s.len() - 1 {
        lemma_sum_shares_nonneg(s.drop_last());
    } else {
        lemma_sum_shares_le(s.drop_last(), i);
    }
}

pub proof fn lemma_sum_shares_push(s: Seq<(AccountId, Account)>, e: (AccountId, Account))
    ensures
        sum_shares(s.push(e)) == sum_shares(s) + e.1.stake_shares,
{
    assert(s.push(e).drop_last() =~= s);
}

pub proof fn lemma_sum_shares_update(
    s: Seq<(AccountId, Account)>,
    i: int,
    e: (AccountId, Account),
)
    requires
        0 <= i < s.len(),
    ensures
        sum_shares(s.update(i, e)) == sum_shares(s) - s[i].1.stake_shares + e.1.stake_shares,
    decreases s.len(),
{
    if i == s.len() - 1 {
        assert(s.update(i, e).drop_last() =~= s.drop_last());
        assert(s.update(i, e).last() == e);
    } else {
        assert(s.update(i, e).drop_last() =~= s.drop_last().update(i, e));
        assert(s.update(i, e).last() == s.last());
        lemma_sum_shares_update(s.drop_last(), i, e);
    }
}

pub proof fn lemma_sum_shares_remove(s: Seq<(AccountId, Account)>, i: int)
    requires
        0 <= i < s.len(),
    ensures
        sum_shares(s.remove(i)) == sum_shares(s) - s[i].1.stake_shares,
    decreases s.len(),
{
    if i == s.len() - 1 {
        assert(s.remove(i) =~= s.drop_last());
    } else {
        assert(s.remove(i).drop_last() =~= s.drop_last().remove(i));
        assert(s.remove(i).last() == s.last());
        lemma_sum_shares_remove(s.drop_last(), i);
    }
}

/// No single account can hold more shares than the ledger-wide sum.
pub proof fn lemma_account_shares_le_sum(s: Seq<(AccountId, Account)>, id: Seq<char>)
    requires
        ledger_ids_unique(s),
    ensures
        ledger_account(s, id).stake_shares <= sum_shares(s),
{
    if ledger_contains(s, id) {
        let i = ledger_index_of(s, id);
        assert(0 <= i < s.len() && s[i].0@ == id);
        lemma_sum_shares_le(s, i);
    } else {
        lemma_sum_shares_nonneg(s);
    }
}

/// With unique identities, the record found at position `i` is the record the
/// ledger associates with its identity.
pub proof fn lemma_ledger_account_at(s: Seq<(AccountId, Account)>, i: int)
    requires
        ledger_ids_unique(s),
        0 <= i < s.len(),
    ensures
        ledger_contains(s, s[i].0@),
        ledger_index_of(s, s[i].0@) == i,
        ledger_account(s, s[i].0@) == s[i].1,
{
    let id = s[i].0@;
    assert(ledger_contains(s, id));
    let j = ledger_index_of(s, id);
    assert(0 <= j < s.len() && s[j].0@ == id);
}

impl StakingContract {
    /// The account the ledger associates with the given identity: the stored
    /// record, or the zero-valued account when none is stored.
    pub open spec fn spec_account(&self, id: Seq<char>) -> Account {
        ledger_account(self.accounts@, id)
    }

    pub open spec fn spec_contains_account(&self, id: Seq<char>) -> bool {
        ledger_contains(self.accounts@, id)
    }

    /// The configuration fields an orchestrator or callback never touches:
    /// everything except the ledger, the share total and the guards.
    pub open spec fn same_config(pre: Self, post: Self) -> bool {
        post.owner_id == pre.owner_id && post.reserved == pre.reserved && post.paused == pre.paused
            && post.contract_busy == pre.contract_busy && post.meta_pool_contract_id
            == pre.meta_pool_contract_id && post.share_near_price == pre.share_near_price
            && post.meta_pool_fee_bp == pre.meta_pool_fee_bp
    }

    /// Everything except the ledger is carried over unchanged.
    pub open spec fn same_but_accounts(pre: Self, post: Self) -> bool {
        post.owner_id == pre.owner_id && post.total_stake_shares == pre.total_stake_shares
            && post.reserved == pre.reserved && post.paused == pre.paused
            && post.contract_busy == pre.contract_busy && post.busy_guard == pre.busy_guard
            && post.meta_pool_contract_id == pre.meta_pool_contract_id
            && post.share_near_price == pre.share_near_price && post.meta_pool_fee_bp
            == pre.meta_pool_fee_bp
    }

    /// The position of the ledger record for `account_id`, if any.
    fn find_account_index(&self, account_id: &AccountId) -> (r: Option<usize>)
        ensures
            match r {
                Some(i) => i < self.accounts@.len() && self.accounts@[i as int].0@
                    == account_id@,
                None => !ledger_contains(self.accounts@, account_id@),
            },
    {
        let mut i: usize = 0;
        while i < self.accounts.len()
            invariant
                i <= self.accounts@.len(),
                forall|j: int| 0 <= j < i ==> self.accounts@[j].0@ != account_id@,
            decreases self.accounts@.len() - i,
        {
            if self.accounts[i].0 == *account_id {
                return Some(i);
            }
            i = i + 1;
        }
        None
    }

    /// Inner method to get the given account or a new default value account.
    pub fn internal_get_account(&self, account_id: &AccountId) -> (account: Account)
        requires
            ledger_ids_unique(self.accounts@),
        ensures
            account == self.spec_account(account_id@),
    {
        match self.find_account_index(account_id) {
            Some(i) => {
                proof {
                    lemma_ledger_account_at(self.accounts@, i as int);
                }
                self.accounts[i].1
            },
            None => Account::default(),
        }
    }

    /// Inner method to save the given account for a given account ID: the
    /// single choke point for ledger mutation. If the account balances are
    /// all zero, the stored record is deleted instead, to release storage.
    pub(crate) fn internal_save_account(&mut self, account_id: &AccountId, account: &Account)
        requires
            ledger_wf(old(self).accounts@),
        ensures
            ledger_wf(final(self).accounts@),
            final(self).spec_account(account_id@) == stored_form(*account),
            forall|k: Seq<char>|
                k != account_id@ ==> final(self).spec_account(k) == old(self).spec_account(k),
            final(self).spec_contains_account(account_id@) == !account.spec_is_empty(),
            forall|k: Seq<char>|
                k != account_id@ ==> final(self).spec_contains_account(k) == old(self).spec_contains_account(k),
            sum_shares(final(self).accounts@) == sum_shares(old(self).accounts@) - old(self).spec_account(account_id@).stake_shares + account.stake_shares,
            Self::same_but_accounts(*old(self), *final(self)),
    {
        let ghost pre = self.accounts@;
        match self.find_account_index(account_id) {
            Some(i) => {
                proof {
                    lemma_ledger_account_at(pre, i as int);
                }
                if account.is_empty() {
                    self.accounts.remove(i);
                    proof {
                        lemma_sum_shares_remove(pre, i as int);
                        lemma_ledger_save_removed(pre, i as int);
                    }
                } else {
                    let entry = self.accounts.remove(i);
                    self.accounts.insert(i, (entry.0, *account));
                    proof {
                        assert(self.accounts@ =~= pre.update(i as int, (pre[i as int].0, *account)));
                        lemma_sum_shares_update(pre, i as int, (pre[i as int].0, *account));
                        lemma_ledger_save_updated(pre, i as int, *account);
                    }
                }
            },
            None => {
                if !account.is_empty() {
                    self.accounts.push((account_id.clone(), *account));
                    proof {
                        lemma_sum_shares_push(pre, self.accounts@.last());
                        assert(self.accounts@ =~= pre.push(self.accounts@.last()));
                        lemma_ledger_save_pushed(pre, account_id@, *account, self.accounts@);
                    }
                }
            },
        }
    }

    /// Credits a deposit to the account's locally-withdrawable balance.
    pub fn internal_deposit(&mut self, account_id: &AccountId, amount: Balance) -> (r:
        Result<(), StakingError>)
        requires
            ledger_wf(old(self).accounts@),
        ensures
            ledger_wf(final(self).accounts@),
            Self::same_but_accounts(*old(self), *final(self)),
            sum_shares(final(self).accounts@) == sum_shares(old(self).accounts@),
            r is Ok <==> old(self).spec_account(account_id@).unstaked + amount <= u128::MAX,
            r is Err ==> r == Err::<(), StakingError>(StakingError::BalanceOverflow) && *final(self)
                == *old(self),
            r is Ok ==> final(self).spec_account(account_id@) == stored_form(
                Account {
                    unstaked: (old(self).spec_account(account_id@).unstaked + amount) as u128,
                    ..old(self).spec_account(account_id@)
                },
            ),
            forall|k: Seq<char>|
                k != account_id@ ==> final(self).spec_account(k) == old(self).spec_account(k),
    {
        let mut account = self.internal_get_account(account_id);
        match account.unstaked.checked_add(amount) {
            Some(u) => {
                account.unstaked = u;
                self.internal_save_account(account_id, &account);
                Ok(())
            },
            None => Err(StakingError::BalanceOverflow),
        }
    }

    /// Rolls the bookkeeping of `internal_deposit` back. Rollback code runs
    /// inside a callback past the point of no return, so it must not trap:
    /// the subtraction saturates at zero instead of failing.
    pub fn rollback_internal_deposit(&mut self, account_id: &AccountId, amount: Balance)
        requires
            ledger_wf(old(self).accounts@),
        ensures
            ledger_wf(final(self).accounts@),
            Self::same_but_accounts(*old(self), *final(self)),
            sum_shares(final(self).accounts@) == sum_shares(old(self).accounts@),
            final(self).spec_account(account_id@) == stored_form(
                Account {
                    unstaked: sat_sub(old(self).spec_account(account_id@).unstaked, amount),
                    ..old(self).spec_account(account_id@)
                },
            ),
            forall|k: Seq<char>|
                k != account_id@ ==> final(self).spec_account(k) == old(self).spec_account(k),
    {
        let mut account = self.internal_get_account(account_id);
        account.unstaked = account.unstaked.saturating_sub(amount);
        self.internal_save_account(account_id, &account);
    }

    /// Moves a positive amount of the account's locally-withdrawable balance
    /// into the staking pipeline, rejecting the request when the balance does
    /// not cover it.
    pub fn internal_register_staking(&mut self, account_id: &AccountId, amount: Balance)
        -> (r: Result<(), StakingError>)
        requires
            ledger_wf(old(self).accounts@),
        ensures
            ledger_wf(final(self).accounts@),
            Self::same_but_accounts(*old(self), *final(self)),
            sum_shares(final(self).accounts@) == sum_shares(old(self).accounts@),
            r is Ok <==> (0 < amount <= old(self).spec_account(account_id@).unstaked),
            amount == 0 ==> r == Err::<(), StakingError>(StakingError::ZeroAmount),
            amount > old(self).spec_account(account_id@).unstaked ==> r == Err::<
                (),
                StakingError,
            >(StakingError::NotEnoughUnstakedBalance),
            r is Err ==> *final(self) == *old(self),
            r is Ok ==> final(self).spec_account(account_id@) == stored_form(
                Account {
                    unstaked: (old(self).spec_account(account_id@).unstaked - amount) as u128,
                    ..old(self).spec_account(account_id@)
                },
            ),
            forall|k: Seq<char>|
                k != account_id@ ==> final(self).spec_account(k) == old(self).spec_account(k),
    {
        if amount == 0 {
            return Err(StakingError::ZeroAmount);
        }
        let mut account = self.internal_get_account(account_id);
        if account.unstaked < amount {
            return Err(StakingError::NotEnoughUnstakedBalance);
        }
        account.unstaked = account.unstaked - amount;
        self.internal_save_account(account_id, &account);
        Ok(())
    }

    /// Rolls the bookkeeping of `internal_register_staking` back, returning
    /// the amount to the locally-withdrawable balance. Must not trap: the
    /// addition saturates instead of failing.
    pub fn rollback_internal_stake(&mut self, account_id: &AccountId, amount: Balance)
        requires
            ledger_wf(old(self).accounts@),
        ensures
            ledger_wf(final(self).accounts@),
            Self::same_but_accounts(*old(self), *final(self)),
            sum_shares(final(self).accounts@) == sum_shares(old(self).accounts@),
            final(self).spec_account(account_id@) == stored_form(
                Account {
                    unstaked: sat_add(old(self).spec_account(account_id@).unstaked, amount),
                    ..old(self).spec_account(account_id@)
                },
            ),
            forall|k: Seq<char>|
                k != account_id@ ==> final(self).spec_account(k) == old(self).spec_account(k),
    {
        let mut account = self.internal_get_account(account_id);
        account.unstaked = account.unstaked.saturating_add(amount);
        self.internal_save_account(account_id, &account);
    }
}

/// Saturating subtraction on balances, the arithmetic of the rollback paths.
pub open spec fn sat_sub(a: u128, b: u128) -> u128 {
    if a >= b {
        (a - b) as u128
    } else {
        0
    }
}

/// Saturating addition on balances, the arithmetic of the rollback paths.
pub open spec fn sat_add(a: u128, b: u128) -> u128 {
    if a + b <= u128::MAX {
        (a + b) as u128
    } else {
        u128::MAX
    }
}

/// Law: an identity reads back as a non-empty account exactly when the ledger
/// stores a record for it — all balance fields are zero if and only if the
/// account is absent.
pub proof fn lemma_account_absent_iff_empty(s: Seq<(AccountId, Account)>, id: Seq<char>)
    requires
        ledger_wf(s),
    ensures
        ledger_contains(s, id) <==> !ledger_account(s, id).spec_is_empty(),
{
    if ledger_contains(s, id) {
        let i = ledger_index_of(s, id);
        assert(0 <= i < s.len() && s[i].0@ == id);
    }
}

/// Law: the rollback arithmetic can be applied twice over without trapping
/// and without driving a balance out of range — the result stays between zero
/// and the starting balance.
pub proof fn lemma_rollback_twice_safe(unstaked: u128, amount: u128)
    ensures
        0 <= sat_sub(sat_sub(unstaked, amount), amount) <= sat_sub(unstaked, amount) <= unstaked,
{
}

/// After deleting position `i`, its identity is absent and every other
/// identity keeps its record.
proof fn lemma_ledger_save_removed(s: Seq<(AccountId, Account)>, i: int)
    requires
        ledger_wf(s),
        0 <= i < s.len(),
    ensures
        ledger_wf(s.remove(i)),
        !ledger_contains(s.remove(i), s[i].0@),
        forall|k: Seq<char>|
            k != s[i].0@ ==> ledger_contains(s.remove(i), k) == ledger_contains(s, k),
        forall|k: Seq<char>|
            k != s[i].0@ ==> ledger_account(s.remove(i), k) == ledger_account(s, k),
{
    let t = s.remove(i);
    assert forall|k: Seq<char>| k != s[i].0@ implies ledger_contains(t, k) == ledger_contains(
        s,
        k,
    ) by {
        if ledger_contains(s, k) {
            let j = choose|j: int| 0 <= j < s.len() && s[j].0@ == k;
            if j < i {
                assert(t[j] == s[j]);
            } else {
                assert(t[j - 1] == s[j]);
            }
        }
        if ledger_contains(t, k) {
            let j = choose|j: int| 0 <= j < t.len() && t[j].0@ == k;
            if j < i {
                assert(s[j] == t[j]);
            } else {
                assert(s[j + 1] == t[j]);
            }
        }
    }
    assert forall|k: Seq<char>| k != s[i].0@ && ledger_contains(s, k) implies ledger_account(t, k)
        == ledger_account(s, k) by {
        let j = ledger_index_of(s, k);
        if j < i {
            lemma_ledger_account_at(t, j);
        } else {
            lemma_ledger_account_at(t, j - 1);
        }
        lemma_ledger_account_at(s, j);
    }
    assert forall|j: int| 0 <= j < t.len() implies t[j].0@ != s[i].0@ by {
        if j < i {
            assert(t[j] == s[j]);
        } else {
            assert(t[j] == s[j + 1]);
        }
    }
}

/// After overwriting the account at position `i` (same identity), that
/// identity maps to the new account and every other identity is unaffected.
proof fn lemma_ledger_save_updated(s: Seq<(AccountId, Account)>, i: int, a: Account)
    requires
        ledger_wf(s),
        0 <= i < s.len(),
        !a.spec_is_empty(),
    ensures
        ledger_wf(s.update(i, (s[i].0, a))),
        ledger_contains(s.update(i, (s[i].0, a)), s[i].0@),
        ledger_account(s.update(i, (s[i].0, a)), s[i].0@) == a,
        forall|k: Seq<char>|
            k != s[i].0@ ==> ledger_contains(s.update(i, (s[i].0, a)), k) == ledger_contains(s, k),
        forall|k: Seq<char>|
            k != s[i].0@ ==> ledger_account(s.update(i, (s[i].0, a)), k) == ledger_account(s, k),
{
    let t = s.update(i, (s[i].0, a));
    assert(forall|j: int| 0 <= j < s.len() ==> t[j].0 == s[j].0);
    lemma_ledger_account_at(t, i);
    assert forall|k: Seq<char>| k != s[i].0@ implies ledger_contains(t, k) == ledger_contains(
        s,
        k,
    ) by {
        if ledger_contains(s, k) {
            let j = choose|j: int| 0 <= j < s.len() && s[j].0@ == k;
            assert(t[j].0@ == k);
        }
        if ledger_contains(t, k) {
            let j = choose|j: int| 0 <= j < t.len() && t[j].0@ == k;
            assert(s[j].0@ == k);
        }
    }
    assert forall|k: Seq<char>| k != s[i].0@ && ledger_contains(s, k) implies ledger_account(t, k)
        == ledger_account(s, k) by {
        let j = ledger_index_of(s, k);
        lemma_ledger_account_at(s, j);
        assert(j != i);
        assert(t[j] == s[j]);
        lemma_ledger_account_at(t, j);
    }
}

/// After appending a record for an identity that was absent, that identity
/// maps to the new account and every other identity is unaffected.
proof fn lemma_ledger_save_pushed(
    s: Seq<(AccountId, Account)>,
    id: Seq<char>,
    a: Account,
    t: Seq<(AccountId, Account)>,
)
    requires
        ledger_wf(s),
        !ledger_contains(s, id),
        !a.spec_is_empty(),
        t.len() == s.len() + 1,
        forall|j: int| 0 <= j < s.len() ==> t[j] == s[j],
        t[s.len() as int].0@ == id,
        t[s.len() as int].1 == a,
    ensures
        ledger_wf(t),
        ledger_contains(t, id),
        ledger_account(t, id) == a,
        forall|k: Seq<char>| k != id ==> ledger_contains(t, k) == ledger_contains(s, k),
        forall|k: Seq<char>| k != id ==> ledger_account(t, k) == ledger_account(s, k),
{
    assert forall|i: int, j: int| 0 <= i < j < t.len() implies t[i].0@ != t[j].0@ by {
        if j == s.len() {
            assert(t[i] == s[i]);
        }
    }
    lemma_ledger_account_at(t, s.len() as int);
    assert forall|k: Seq<char>| k != id implies ledger_contains(t, k) == ledger_contains(s, k) by {
        if ledger_contains(s, k) {
            let j = choose|j: int| 0 <= j < s.len() && s[j].0@ == k;
            assert(t[j].0@ == k);
        }
        if ledger_contains(t, k) {
            let j = choose|j: int| 0 <= j < t.len() && t[j].0@ == k;
            assert(j < s.len());
            assert(s[j].0@ == k);
        }
    }
    assert forall|k: Seq<char>| k != id && ledger_contains(s, k) implies ledger_account(t, k)
        == ledger_account(s, k) by {
        let j = ledger_index_of(s, k);
        lemma_ledger_account_at(s, j);
        assert(t[j] == s[j]);
        lemma_ledger_account_at(t, j);
    }
}

} // verus!
