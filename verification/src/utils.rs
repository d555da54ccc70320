//! Small helpers: account-identity validation and classification.

use vstd::prelude::*;

use vstd::arithmetic::div_mod::{
    lemma_div_is_ordered, lemma_div_is_ordered_by_denominator, lemma_div_multiples_vanish,
    lemma_div_pos_is_pos, lemma_fundamental_div_mod, lemma_mod_division_less_than_divisor,
};
use vstd::arithmetic::mul::{lemma_mul_inequality, lemma_mul_is_commutative};

use crate::arith::mul_div_checked;
use crate::{AccountId, StakingError, ONE_NEAR};

verus! {

pub const TGAS: u64 = 1_000_000_000_000;

/// Returns `amount * numerator / denominator`, computed with a wide
/// intermediate so the multiplication cannot wrap. The quotient must fit in
/// 128 bits; `mul_div_checked` is the total variant for callers that cannot
/// guarantee that.
pub fn mul_div(amount: u128, numerator: u128, denominator: u128) -> (r: u128)
    requires
        0 < denominator,
        amount as int * numerator as int / denominator as int <= u128::MAX,
    ensures
        r == amount as int * numerator as int / denominator as int,
{
    match mul_div_checked(amount, numerator, denominator) {
        Some(q) => q,
        None => {
            proof {
                assert(false);
            }
            0
        },
    }
}

/// How many pool shares a currency amount converts to at the given quote:
/// `floor(amount * ONE_NEAR / share_near_price)`. Shares are rounded down, so
/// a redemption request never needs more currency than the user owns.
pub open spec fn spec_currency_to_shares(amount: u128, share_near_price: u128) -> int {
    amount as int * ONE_NEAR as int / share_near_price as int
}

/// Law: the conversion from currency to shares is monotonic non-decreasing in
/// the amount.
pub proof fn lemma_currency_to_shares_monotonic(a1: u128, a2: u128, share_near_price: u128)
    requires
        a1 <= a2,
        0 < share_near_price,
    ensures
        spec_currency_to_shares(a1, share_near_price) <= spec_currency_to_shares(
            a2,
            share_near_price,
        ),
{
    lemma_mul_inequality(a1 as int, a2 as int, ONE_NEAR as int);
    lemma_div_is_ordered(
        a1 as int * ONE_NEAR as int,
        a2 as int * ONE_NEAR as int,
        share_near_price as int,
    );
}

/// Law: the conversion rounds down — the shares handed out, valued at the
/// quoted price, never exceed the amount asked for.
pub proof fn lemma_currency_to_shares_rounds_down(amount: u128, share_near_price: u128)
    requires
        0 < share_near_price,
    ensures
        spec_currency_to_shares(amount, share_near_price) * share_near_price <= amount as int
            * ONE_NEAR as int,
{
    let x = amount as int * ONE_NEAR as int;
    let p = share_near_price as int;
    lemma_fundamental_div_mod(x, p);
    lemma_mod_division_less_than_divisor(x, p);
    lemma_mul_is_commutative(x / p, p);
}

/// With a quote of at least one NEAR per share, an amount converts to at most
/// that many shares, so the conversion never overflows.
pub proof fn lemma_currency_to_shares_le_amount(amount: u128, share_near_price: u128)
    requires
        ONE_NEAR <= share_near_price,
    ensures
        0 <= spec_currency_to_shares(amount, share_near_price) <= amount,
{
    let x = amount as int * ONE_NEAR as int;
    lemma_mul_inequality(0, amount as int, ONE_NEAR as int);
    lemma_div_pos_is_pos(x, share_near_price as int);
    lemma_div_is_ordered_by_denominator(x, ONE_NEAR as int, share_near_price as int);
    lemma_mul_is_commutative(amount as int, ONE_NEAR as int);
    lemma_div_multiples_vanish(amount as int, ONE_NEAR as int);
}

/// A character the host chain allows in an account identity.
pub open spec fn valid_account_char(c: char) -> bool {
    (97 <= c as u32 && c as u32 <= 122)  // 'a' to 'z'
     || (48 <= c as u32 && c as u32 <= 57)  // '0' to '9'
     || account_separator(c)
}

/// A separator character of an account identity: '-', '_' or '.'.
pub open spec fn account_separator(c: char) -> bool {
    c as u32 == 45 || c as u32 == 95 || c as u32 == 46
}

/// The host chain's rules for an account identity: 2 to 64 characters, each a
/// lowercase letter, a digit or a separator, with no separator at either end
/// and no two separators adjacent.
pub open spec fn spec_is_valid_account_id(s: Seq<char>) -> bool {
    2 <= s.len() <= 64 && (forall|i: int| 0 <= i < s.len() ==> valid_account_char(#[trigger] s[i]))
        && !account_separator(s[0]) && !account_separator(s[s.len() - 1]) && (forall|i: int|
        0 < i < s.len() ==> !(account_separator(s[i - 1]) && account_separator(#[trigger] s[i])))
}

/// Checks the host chain's account-identity rules.
pub fn is_valid_account_id(account_id: &str) -> (r: bool)
    ensures
        r == spec_is_valid_account_id(account_id@),
{
    let len = account_id.unicode_len();
    if len < 2 || len > 64 {
        return false;
    }
    let mut i: usize = 0;
    while i < len
        invariant
            2 <= len <= 64,
            len == account_id@.len(),
            i <= len,
            forall|j: int| 0 <= j < i ==> valid_account_char(#[trigger] account_id@[j]),
            i > 0 ==> !account_separator(account_id@[0]),
            forall|j: int|
                0 < j < i ==> !(account_separator(account_id@[j - 1]) && account_separator(
                    #[trigger] account_id@[j],
                )),
        decreases len - i,
    {
        let c = account_id.get_char(i);
        let code: u32 = c as u32;
        let is_alnum: bool = (97 <= code && code <= 122) || (48 <= code && code <= 57);
        let is_sep: bool = code == 45 || code == 95 || code == 46;
        if !is_alnum && !is_sep {
            return false;
        }
        if is_sep {
            if i == 0 {
                return false;
            }
            let prev = account_id.get_char(i - 1);
            let prev_code: u32 = prev as u32;
            if prev_code == 45 || prev_code == 95 || prev_code == 46 {
                return false;
            }
        }
        i = i + 1;
    }
    let last = account_id.get_char(len - 1);
    let last_code: u32 = last as u32;
    if last_code == 45 || last_code == 95 || last_code == 46 {
        return false;
    }
    true
}

/// Whether `s` ends with `suffix`.
pub open spec fn spec_ends_with(s: Seq<char>, suffix: Seq<char>) -> bool {
    s.len() >= suffix.len() && s.subrange(s.len() - suffix.len(), s.len() as int) == suffix
}

/// Compares the tail of `s` against `suffix`, character by character.
fn ends_with(s: &str, suffix: &str) -> (r: bool)
    ensures
        r == spec_ends_with(s@, suffix@),
{
    let n = s.unicode_len();
    let m = suffix.unicode_len();
    if n < m {
        return false;
    }
    let start = n - m;
    let mut i: usize = 0;
    while i < m
        invariant
            m <= n,
            n == s@.len(),
            m == suffix@.len(),
            start == n - m,
            i <= m,
            forall|j: int| 0 <= j < i ==> s@[start + j] == suffix@[j],
        decreases m - i,
    {
        if s.get_char(start + i) != suffix.get_char(i) {
            proof {
                assert(s@.subrange(s@.len() - suffix@.len(), s@.len() as int)[i as int]
                    == s@[start + i]);
            }
            return false;
        }
        i = i + 1;
    }
    proof {
        assert(s@.subrange(s@.len() - suffix@.len(), s@.len() as int) =~= suffix@);
    }
    true
}

/// The suffixes that mark a time-locked (lockup) account on the two networks.
pub open spec fn spec_is_lockup_account(s: Seq<char>) -> bool {
    spec_ends_with(s, ".lockup.near"@) || spec_ends_with(s, ".lockupy.testnet"@)
}

/// Tells whether an account identity is a lockup account.
pub fn is_lockup_account(account_id: &str) -> (r: bool)
    ensures
        r == spec_is_lockup_account(account_id@),
{
    ends_with(account_id, ".lockup.near") || ends_with(account_id, ".lockupy.testnet")
}

/// Rejects every account identity that is not a lockup account: only
/// `.lockup.near` (or, on the test network, `.lockupy.testnet`) accounts may
/// be used here.
pub fn assert_is_lockup_account(account_id: &AccountId) -> (r: Result<(), StakingError>)
    ensures
        r is Ok <==> spec_is_lockup_account(account_id@),
        r is Err ==> r == Err::<(), StakingError>(StakingError::InvalidAccountId),
{
    if is_lockup_account(account_id.as_str()) {
        Ok(())
    } else {
        Err(StakingError::InvalidAccountId)
    }
}

} // verus!
