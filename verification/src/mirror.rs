//! Mirror-reflected boundary indexing.
//!
//! An out-of-range source offset is mapped back into `[0, len)` by
//! reflecting off the boundaries: the index sequence `0 .. len-1` followed
//! by its reverse, tiled with period `2 * len`. Reflection, not clamping
//! and not wraparound: offset `-1` resolves to index `0`, offset `len`
//! resolves to index `len - 1`.

use vstd::prelude::*;

verus! {

use vstd::arithmetic::div_mod::lemma_fundamental_div_mod;
use vstd::arithmetic::div_mod::lemma_fundamental_div_mod_converse;
use vstd::arithmetic::div_mod::lemma_mod_bound;
use vstd::arithmetic::div_mod::lemma_small_mod;

/// Where an arbitrary signed offset lands after mirror reflection into
/// `[0, len)`: position in the tiled sequence `0..len-1, len-1..0`.
pub open spec fn mirror_spec(i: int, len: int) -> int
    recommends
        1 <= len,
{
    let m = i % (2 * len);
    if m < len {
        m
    } else {
        2 * len - 1 - m
    }
}

/// Euclidean remainder of a negative dividend, written over the remainder
/// of its nonnegative reflection `-i - 1`.
proof fn lemma_mod_of_negative(i: int, p: int)
    requires
        1 <= p,
        i < 0,
    ensures
        i % p == p - 1 - ((-i - 1) % p),
{
    let k = -i - 1;
    lemma_fundamental_div_mod(k, p);
    lemma_mod_bound(k, p);
    let q = k / p;
    let r = k % p;
    assert((-q - 1) * p == -(p * q) - p) by (nonlinear_arith);
    lemma_fundamental_div_mod_converse(i, p, -q - 1, p - 1 - r);
}

/// Resolves a signed source offset to an in-range index by mirror
/// reflection at the boundaries of `[0, len)`.
pub fn mirror_index(idx: i128, len: usize) -> (r: usize)
    requires
        1 <= len,
        len <= usize::MAX / 2,
    ensures
        r < len,
        r as int == mirror_spec(idx as int, len as int),
{
    let period: usize = 2 * len;
    let m: usize = if idx >= 0 {
        ((idx as u128) % (period as u128)) as usize
    } else {
        let k: u128 = (-(idx + 1)) as u128;
        let rem: usize = (k % (period as u128)) as usize;
        proof {
            lemma_mod_of_negative(idx as int, period as int);
        }
        period - 1 - rem
    };
    if m < len {
        m
    } else {
        period - 1 - m
    }
}

/// Mirror reflection never lands out of range: every signed offset
/// resolves to an index inside `[0, len)`.
pub proof fn lemma_mirror_in_range(i: int, len: int)
    requires
        1 <= len,
    ensures
        0 <= mirror_spec(i, len) < len,
{
    lemma_mod_bound(i, 2 * len);
}

/// An offset already inside `[0, len)` reflects to itself: interior
/// indices are untouched by the boundary rule.
pub proof fn lemma_mirror_identity(i: int, len: int)
    requires
        1 <= len,
        0 <= i < len,
    ensures
        mirror_spec(i, len) == i,
{
    lemma_small_mod(i as nat, (2 * len) as nat);
}

/// An offset just below the lower boundary reflects back in: offset
/// `-1 - i` resolves to index `i`. In particular offset `-1` resolves to
/// index `0`.
pub proof fn lemma_mirror_reflect_low(i: int, len: int)
    requires
        1 <= len,
        0 <= i < len,
    ensures
        mirror_spec(-1 - i, len) == i,
{
    let p = 2 * len;
    assert(-1 - i == (-1) * p + (p - 1 - i)) by (nonlinear_arith);
    lemma_fundamental_div_mod_converse(-1 - i, p, -1, p - 1 - i);
}

/// An offset just past the upper boundary reflects back in: offset
/// `len + i` resolves to index `len - 1 - i`. In particular offset `len`
/// resolves to index `len - 1`.
pub proof fn lemma_mirror_reflect_high(i: int, len: int)
    requires
        1 <= len,
        0 <= i < len,
    ensures
        mirror_spec(len + i, len) == len - 1 - i,
{
    lemma_small_mod((len + i) as nat, (2 * len) as nat);
}

/// Reflection tiles the axis with period `2 * len`: shifting an offset by
/// one period resolves to the same index.
pub proof fn lemma_mirror_periodic(i: int, len: int)
    requires
        1 <= len,
    ensures
        mirror_spec(i + 2 * len, len) == mirror_spec(i, len),
{
    let p = 2 * len;
    lemma_fundamental_div_mod(i, p);
    lemma_mod_bound(i, p);
    let q = i / p;
    let r = i % p;
    assert(i + p == (q + 1) * p + r) by (nonlinear_arith)
        requires
            i == p * q + r,
    ;
    lemma_fundamental_div_mod_converse(i + p, p, q + 1, r);
}

} // verus!
