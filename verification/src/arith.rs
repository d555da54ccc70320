//! Exact `floor(a * n / d)` on 128-bit operands.
//!
//! The product `a * n` can need 256 bits, so it is never formed. Instead `a`
//! is split as `a == (a / d) * d + a % d`, and `floor((a % d) * n / d)` is
//! computed by a most-significant-first double-and-add walk over the bits of
//! `n`, carrying a quotient and a remainder that stays below `d`. Every
//! intermediate value fits in 128 bits, and an overflowing quotient is
//! reported rather than truncated.

use vstd::prelude::*;

use vstd::arithmetic::div_mod::{
    lemma_div_denominator, lemma_div_is_ordered, lemma_div_nonincreasing, lemma_div_pos_is_pos,
    lemma_fundamental_div_mod, lemma_fundamental_div_mod_converse,
};
use vstd::arithmetic::mul::{
    lemma_mul_inequality, lemma_mul_is_commutative, lemma_mul_nonnegative,
};
use vstd::arithmetic::power2::{
    lemma2_to64, lemma2_to64_rest, lemma_pow2_adds, lemma_pow2_pos, pow2,
};

verus! {

/// `floor(a * n / d) == (a / d) * n + floor((a % d) * n / d)`: dividing out
/// the whole multiples of `d` first loses nothing.
proof fn lemma_mul_div_split(a: int, n: int, d: int)
    requires
        0 <= a,
        0 <= n,
        0 < d,
    ensures
        a * n / d == (a / d) * n + (a % d) * n / d,
        0 <= (a / d) * n,
        0 <= (a % d) * n / d,
{
    let k = a / d;
    let a0 = a % d;
    lemma_fundamental_div_mod(a, d);
    lemma_div_pos_is_pos(a, d);
    lemma_mul_nonnegative(k, n);
    lemma_mul_nonnegative(a0, n);
    lemma_fundamental_div_mod(a0 * n, d);
    lemma_div_pos_is_pos(a0 * n, d);
    let q0 = a0 * n / d;
    let r0 = a0 * n % d;
    assert(a * n == d * (k * n + q0) + r0) by (nonlinear_arith)
        requires
            a == d * k + a0,
            a0 * n == d * q0 + r0,
    {}
    lemma_fundamental_div_mod_converse(a * n, d, k * n + q0, r0);
}

/// One double-and-add walk over the bits of `n`, most significant first:
/// returns `floor(a0 * n / d)`, or `None` when that quotient does not fit in
/// 128 bits.
fn wide_mul_div_rem(a0: u128, n: u128, d: u128) -> (r: Option<u128>)
    requires
        0 < d,
        a0 < d,
    ensures
        match r {
            Some(q) => q == a0 as int * n as int / d as int,
            None => a0 as int * n as int / d as int > u128::MAX,
        },
{
    let mut q: u128 = 0;
    let mut r: u128 = 0;
    let mut mask: u128 = 0x8000_0000_0000_0000_0000_0000_0000_0000;
    let mut j: usize = 0;
    let ghost mut p: int = 0int;
    proof {
        lemma2_to64();
        lemma2_to64_rest();
        lemma_pow2_adds(64, 63);
        lemma_pow2_adds(64, 64);
        assert(mask == pow2(127));
        // the whole of `n` sits below the first prefix window
        assert(n as int / pow2(128) as int == 0) by {
            assert(n < pow2(128));
            assert(pow2(128) * 0 <= n < pow2(128) * (0 + 1)) by (nonlinear_arith)
                requires
                    n < pow2(128),
            {}
            lemma_fundamental_div_mod_converse(n as int, pow2(128) as int, 0, n as int);
        }
    }
    while j < 128
        invariant
            0 < d,
            a0 < d,
            j <= 128,
            j < 128 ==> mask == pow2((127 - j) as nat),
            p == n as int / pow2((128 - j) as nat) as int,
            0 <= p,
            q == a0 as int * p / d as int,
            r == a0 as int * p % d as int,
            r < d,
        decreases 128 - j,
    {
        proof {
            lemma_pow2_pos((127 - j) as nat);
        }
        let bit: u128 = (n / mask) % 2;
        let ghost np: int = n as int / mask as int;
        proof {
            // stepping the window in: n / pow2(128-j) is the upper half of
            // n / pow2(127-j), and `bit` the incoming low bit
            lemma2_to64();
            lemma_pow2_adds((127 - j) as nat, 1);
            lemma_pow2_pos((128 - j) as nat);
            lemma_div_denominator(n as int, mask as int, 2);
            lemma_fundamental_div_mod(np, 2);
            assert(np == 2 * p + bit);
            lemma_div_pos_is_pos(n as int, mask as int);
        }
        // double the remainder, fold the incoming bit in; every step stays
        // below `d`, so nothing here can wrap
        let mut t: u128 = 0;
        let r2: u128;
        if r >= d - r {
            r2 = r - (d - r);
            t = 1;
        } else {
            r2 = r + r;
        }
        let e: u128 = if bit == 1 {
            a0
        } else {
            0
        };
        let r3: u128;
        if r2 >= d - e {
            r3 = r2 - (d - e);
            t = t + 1;
        } else {
            r3 = r2 + e;
        }
        proof {
            // a0 * np == d * (2q + t) + r3 with 0 <= r3 < d, so 2q + t is
            // exactly the quotient for the widened prefix
            lemma_fundamental_div_mod(a0 as int * p, d as int);
            assert(a0 as int * np == d as int * (2 * q + t) + r3) by (nonlinear_arith)
                requires
                    np == 2 * p + bit,
                    e == (if bit == 1 { a0 as int } else { 0int }),
                    bit == 0 || bit == 1,
                    a0 as int * p == d as int * (q as int) + r,
                    2 * (r as int) + e == d as int * (t as int) + r3,
            {}
            lemma_mul_nonnegative(a0 as int, np);
            lemma_fundamental_div_mod_converse(a0 as int * np, d as int, 2 * q + t, r3 as int);
            // the full quotient dominates every prefix quotient
            lemma_div_nonincreasing(n as int, mask as int);
            lemma_mul_inequality(np, n as int, a0 as int);
            lemma_mul_is_commutative(np, a0 as int);
            lemma_mul_is_commutative(n as int, a0 as int);
            lemma_div_is_ordered(a0 as int * np, a0 as int * n as int, d as int);
        }
        if q > (u128::MAX - t) / 2 {
            return None;
        }
        q = 2 * q + t;
        r = r3;
        proof {
            p = np;
        }
        mask = mask / 2;
        j = j + 1;
        proof {
            if j < 128 {
                lemma_pow2_adds((127 - j) as nat, 1);
            }
        }
    }
    proof {
        assert(pow2(0) == 1) by {
            lemma2_to64();
        }
        lemma_fundamental_div_mod_converse(n as int, 1, n as int, 0);
    }
    Some(q)
}

/// `floor(a * n / d)`, or `None` exactly when that quotient does not fit in
/// 128 bits. The 256-bit-wide product is never materialized.
pub fn mul_div_checked(a: u128, n: u128, d: u128) -> (r: Option<u128>)
    requires
        0 < d,
    ensures
        match r {
            Some(q) => q == a as int * n as int / d as int,
            None => a as int * n as int / d as int > u128::MAX,
        },
{
    let k = a / d;
    let a0 = a % d;
    proof {
        lemma_mul_div_split(a as int, n as int, d as int);
    }
    let kn: u128 = match k.checked_mul(n) {
        Some(v) => v,
        None => {
            return None;
        },
    };
    let q0: u128 = match wide_mul_div_rem(a0, n, d) {
        Some(v) => v,
        None => {
            return None;
        },
    };
    match kn.checked_add(q0) {
        Some(v) => Some(v),
        None => None,
    }
}

} // verus!
