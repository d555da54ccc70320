//! Decoding of the pool's success payloads.
//!
//! The pool returns JSON: 128-bit amounts and 64-bit epoch heights travel as
//! decimal strings (`"123"`), small numbers as bare digits (`400`), and the
//! unstake result as a two-element array (`["50","17"]`). A payload that does
//! not match its grammar is reported as undecodable — the callbacks treat
//! that as an acknowledged gap, never as an abort.

use vstd::prelude::*;

verus! {

pub const QUOTE: u8 = 34;

pub const COMMA: u8 = 44;

pub const OPEN_BRACKET: u8 = 91;

pub const CLOSE_BRACKET: u8 = 93;

pub open spec fn is_digit(b: u8) -> bool {
    48 <= b <= 57
}

pub open spec fn all_digits(s: Seq<u8>) -> bool {
    forall|i: int| 0 <= i < s.len() ==> is_digit(#[trigger] s[i])
}

/// The number written by a string of decimal digits, most significant first.
pub open spec fn digits_value(s: Seq<u8>) -> int
    decreases s.len(),
{
    if s.len() == 0 {
        0
    } else {
        digits_value(s.drop_last()) * 10 + (s.last() - 48)
    }
}

/// The first position at or after `i` holding a double quote, or the length
/// when there is none.
pub open spec fn find_quote(s: Seq<u8>, i: int) -> int
    decreases s.len() - i,
{
    if 0 <= i < s.len() {
        if s[i] == QUOTE {
            i
        } else {
            find_quote(s, i + 1)
        }
    } else {
        s.len() as int
    }
}

pub proof fn lemma_digits_value_nonneg(s: Seq<u8>)
    requires
        all_digits(s),
    ensures
        0 <= digits_value(s),
    decreases s.len(),
{
    if s.len() > 0 {
        assert(all_digits(s.drop_last()));
        lemma_digits_value_nonneg(s.drop_last());
    }
}

/// A digit string is worth at least any of its prefixes: once a prefix
/// exceeds a bound, the whole string does.
pub proof fn lemma_digits_value_prefix(s: Seq<u8>, m: int)
    requires
        all_digits(s),
        0 <= m <= s.len(),
    ensures
        digits_value(s.take(m)) <= digits_value(s),
    decreases s.len(),
{
    if m < s.len() {
        assert(all_digits(s.drop_last()));
        assert(s.drop_last().take(m) =~= s.take(m));
        lemma_digits_value_prefix(s.drop_last(), m);
        lemma_digits_value_nonneg(s.drop_last());
    } else {
        assert(s.take(m) =~= s);
    }
}

/// Positions, content and absence of quotes up to the position `find_quote`
/// names.
pub proof fn lemma_find_quote(s: Seq<u8>, i: int)
    requires
        0 <= i <= s.len(),
    ensures
        i <= find_quote(s, i),
        find_quote(s, i) <= s.len(),
        find_quote(s, i) < s.len() ==> s[find_quote(s, i)] == QUOTE,
        forall|j: int| i <= j < find_quote(s, i) ==> s[j] != QUOTE,
    decreases s.len() - i,
{
    if 0 <= i < s.len() && s[i] != QUOTE {
        lemma_find_quote(s, i + 1);
    }
}

/// The payload of a 128-bit amount: a quoted decimal string, nothing around
/// it, whose value fits in 128 bits.
pub open spec fn spec_quoted_u128(s: Seq<u8>) -> Option<u128> {
    if s.len() >= 3 && s[0] == QUOTE && s[s.len() - 1] == QUOTE && all_digits(
        s.subrange(1, s.len() - 1),
    ) && digits_value(s.subrange(1, s.len() - 1)) <= u128::MAX {
        Some(digits_value(s.subrange(1, s.len() - 1)) as u128)
    } else {
        None
    }
}

/// The payload of a small bare number: decimal digits without a leading
/// zero, whose value fits in 16 bits.
pub open spec fn spec_bare_u16(s: Seq<u8>) -> Option<u16> {
    if s.len() >= 1 && all_digits(s) && (s[0] != 48 || s.len() == 1) && digits_value(s)
        <= u16::MAX {
        Some(digits_value(s) as u16)
    } else {
        None
    }
}

/// The payload of an unstake result: a two-element array of a quoted 128-bit
/// amount and a quoted 64-bit epoch height.
pub open spec fn spec_quoted_pair(s: Seq<u8>) -> Option<(u128, u64)> {
    let c1: int = find_quote(s, 2);
    let c2: int = find_quote(s, c1 + 3);
    if s.len() >= 2 && s[0] == OPEN_BRACKET && s[1] == QUOTE && c1 < s.len() && 2 < c1
        && all_digits(s.subrange(2, c1)) && digits_value(s.subrange(2, c1)) <= u128::MAX && c1 + 2
        < s.len() && s[c1 + 1] == COMMA && s[c1 + 2] == QUOTE && c2 < s.len() && c1 + 3 < c2
        && all_digits(s.subrange(c1 + 3, c2)) && digits_value(s.subrange(c1 + 3, c2)) <= u64::MAX
        && c2 + 2 == s.len() && s[c2 + 1] == CLOSE_BRACKET {
        Some(
            (
                digits_value(s.subrange(2, c1)) as u128,
                digits_value(s.subrange(c1 + 3, c2)) as u64,
            ),
        )
    } else {
        None
    }
}

/// Scans a run of digits beginning at `start` up to a closing quote,
/// accumulating its value. Reports failure when no quote follows, the run is
/// empty, a byte is neither digit nor quote, or the value exceeds `max`.
fn scan_quoted_digits(s: &Vec<u8>, start: usize, max: u128) -> (r: Option<(u128, usize)>)
    requires
        1 <= start,
        start <= s@.len(),
    ensures
        match r {
            Some(v) => {
                let c = find_quote(s@, start as int);
                &&& v.1 == c
                &&& c < s@.len()
                &&& start < c
                &&& all_digits(s@.subrange(start as int, c))
                &&& 0 <= digits_value(s@.subrange(start as int, c)) <= max
                &&& v.0 == digits_value(s@.subrange(start as int, c))
            },
            None => {
                let c = find_quote(s@, start as int);
                ||| c >= s@.len()
                ||| c == start
                ||| !all_digits(s@.subrange(start as int, c))
                ||| digits_value(s@.subrange(start as int, c)) > max
            },
        },
{
    let len = s.len();
    let mut i: usize = start;
    let mut acc: u128 = 0;
    while i < len && s[i] != QUOTE
        invariant
            1 <= start <= i <= len,
            len == s@.len(),
            find_quote(s@, start as int) == find_quote(s@, i as int),
            all_digits(s@.subrange(start as int, i as int)),
            acc == digits_value(s@.subrange(start as int, i as int)),
            acc <= max,
            max <= u128::MAX,
        decreases len - i,
    {
        let b = s[i];
        let ghost pre = s@.subrange(start as int, i as int);
        let ghost cur = s@.subrange(start as int, i + 1);
        proof {
            assert(cur.drop_last() =~= pre);
            lemma_find_quote(s@, i + 1);
        }
        if b < 48 || b > 57 {
            proof {
                // the full digit run, if the grammar held, would span this
                // non-digit byte
                let c = find_quote(s@, start as int);
                if c < s@.len() && c != start {
                    assert(i < c);
                    assert(s@.subrange(start as int, c)[i - start] == b);
                }
            }
            return None;
        }
        let d = (b - 48) as u128;
        if acc > (u128::MAX - d) / 10 {
            proof {
                let c = find_quote(s@, start as int);
                assert(digits_value(cur) == acc * 10 + d);
                assert(acc * 10 + d > u128::MAX) by (nonlinear_arith)
                    requires
                        acc > (u128::MAX - d) / 10,
                        0 <= d <= 9,
                {}
                if c < s@.len() && c != start && all_digits(s@.subrange(start as int, c)) {
                    assert(i + 1 <= c);
                    assert(s@.subrange(start as int, c).take(i + 1 - start) =~= cur);
                    lemma_digits_value_prefix(s@.subrange(start as int, c), i + 1 - start);
                }
            }
            return None;
        }
        let next = acc * 10 + d;
        if next > max {
            proof {
                let c = find_quote(s@, start as int);
                assert(digits_value(cur) == next);
                if c < s@.len() && c != start && all_digits(s@.subrange(start as int, c)) {
                    assert(i + 1 <= c);
                    assert(s@.subrange(start as int, c).take(i + 1 - start) =~= cur);
                    lemma_digits_value_prefix(s@.subrange(start as int, c), i + 1 - start);
                }
            }
            return None;
        }
        acc = next;
        i = i + 1;
    }
    if i == len {
        return None;
    }
    if i == start {
        return None;
    }
    Some((acc, i))
}

/// Decodes the pool's encoding of a 128-bit amount.
pub fn parse_quoted_u128(s: &Vec<u8>) -> (r: Option<u128>)
    ensures
        r == spec_quoted_u128(s@),
{
    let len = s.len();
    if len < 3 {
        return None;
    }
    if s[0] != QUOTE {
        return None;
    }
    if s[len - 1] != QUOTE {
        return None;
    }
    proof {
        // the scan stops at the first quote after the opening one, which sits
        // no later than the final byte
        lemma_find_quote(s@, 1);
        let c: int = find_quote(s@, 1);
        assert(c <= len - 1) by {
            if c > len - 1 {
                assert(s@[len - 1] != QUOTE);
            }
        }
    }
    match scan_quoted_digits(s, 1, u128::MAX) {
        Some((value, end)) => {
            if end == len - 1 {
                proof {
                    assert(s@.subrange(1, len - 1) =~= s@.subrange(1, end as int));
                }
                Some(value)
            } else {
                // a quote interrupts the digits before the final byte, so the
                // payload is not a single quoted number
                proof {
                    let inner = s@.subrange(1, len - 1);
                    assert(inner[end - 1] == s@[end as int]);
                    assert(!all_digits(inner));
                }
                None
            }
        },
        None => {
            proof {
                let c: int = find_quote(s@, 1);
                let inner = s@.subrange(1, len - 1);
                if c < len - 1 {
                    assert(inner[c - 1] == s@[c]);
                    assert(!all_digits(inner));
                } else {
                    assert(inner =~= s@.subrange(1, c));
                }
            }
            None
        },
    }
}

/// Decodes the pool's encoding of a small bare number.
pub fn parse_bare_u16(s: &Vec<u8>) -> (r: Option<u16>)
    ensures
        r == spec_bare_u16(s@),
{
    let len = s.len();
    if len == 0 {
        return None;
    }
    if s[0] == 48 && len > 1 {
        return None;
    }
    let mut i: usize = 0;
    let mut acc: u32 = 0;
    while i < len
        invariant
            i <= len,
            len == s@.len(),
            all_digits(s@.subrange(0, i as int)),
            acc == digits_value(s@.subrange(0, i as int)),
            acc <= u16::MAX,
        decreases len - i,
    {
        let b = s[i];
        let ghost cur = s@.subrange(0, i + 1);
        proof {
            assert(cur.drop_last() =~= s@.subrange(0, i as int));
        }
        if b < 48 || b > 57 {
            proof {
                assert(s@.subrange(0, len as int)[i as int] == b);
                assert(s@.subrange(0, len as int) =~= s@);
            }
            return None;
        }
        let next: u32 = acc * 10 + (b - 48) as u32;
        if next > 65535 {
            proof {
                assert(digits_value(cur) == next);
                if all_digits(s@) {
                    assert(s@.take(i + 1) =~= cur);
                    lemma_digits_value_prefix(s@, i + 1);
                }
            }
            return None;
        }
        acc = next;
        i = i + 1;
    }
    proof {
        assert(s@.subrange(0, len as int) =~= s@);
    }
    Some(acc as u16)
}

/// Decodes the pool's encoding of an unstake result: the currency now
/// unstaked in the pool, and the epoch at which it unlocks.
pub fn parse_quoted_pair(s: &Vec<u8>) -> (r: Option<(u128, u64)>)
    ensures
        r == spec_quoted_pair(s@),
{
    let len = s.len();
    if len < 2 {
        return None;
    }
    if s[0] != OPEN_BRACKET {
        return None;
    }
    if s[1] != QUOTE {
        return None;
    }
    let first = match scan_quoted_digits(s, 2, u128::MAX) {
        Some(v) => v,
        None => {
            return None;
        },
    };
    let c1 = first.1;
    if c1 >= len - 2 {
        return None;
    }
    if s[c1 + 1] != COMMA {
        return None;
    }
    if s[c1 + 2] != QUOTE {
        return None;
    }
    let second = match scan_quoted_digits(s, c1 + 3, 0xFFFF_FFFF_FFFF_FFFF) {
        Some(v) => v,
        None => {
            return None;
        },
    };
    let c2 = second.1;
    if c2 != len - 2 {
        return None;
    }
    if s[c2 + 1] != CLOSE_BRACKET {
        return None;
    }
    Some((first.0, second.0 as u64))
}

} // verus!
