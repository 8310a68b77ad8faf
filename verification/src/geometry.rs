//! Integer geometry of destination patches.
//!
//! For output index `p` over an axis that maps `out_len` output cells onto
//! `in_len` source cells, the destination patch is the real interval
//! `[p * in_len / out_len, (p + 1) * in_len / out_len)`. The source cells
//! that can intersect it are exactly those with index in
//! `[floor(p * in_len / out_len), min(ceil((p + 1) * in_len / out_len), in_len))`,
//! and that range is computed here exactly, in integer arithmetic.

use vstd::prelude::*;

verus! {

use vstd::arithmetic::div_mod::lemma_div_is_ordered;
use vstd::arithmetic::div_mod::lemma_fundamental_div_mod;
use vstd::arithmetic::div_mod::lemma_fundamental_div_mod_converse;
use vstd::arithmetic::div_mod::lemma_mod_bound;

/// First source cell of the patch of output index `p`:
/// `floor(p * in_len / out_len)`.
pub open spec fn patch_lo_spec(p: int, in_len: int, out_len: int) -> int
    recommends
        1 <= out_len,
{
    (p * in_len) / out_len
}

/// One past the last source cell of the patch of output index `p`:
/// `ceil((p + 1) * in_len / out_len)`, never past the axis end.
pub open spec fn patch_hi_spec(p: int, in_len: int, out_len: int) -> int
    recommends
        1 <= out_len,
{
    let e = ((p + 1) * in_len + out_len - 1) / out_len;
    if e <= in_len {
        e
    } else {
        in_len
    }
}

/// The ceiling of `a / b`, written over floor division and remainder.
proof fn lemma_ceil_div(a: int, b: int)
    requires
        0 <= a,
        1 <= b,
    ensures
        (a + b - 1) / b == if a % b == 0 {
            a / b
        } else {
            a / b + 1
        },
{
    lemma_fundamental_div_mod(a, b);
    lemma_mod_bound(a, b);
    let q = a / b;
    let r = a % b;
    if r == 0 {
        assert(a + b - 1 == q * b + (b - 1)) by (nonlinear_arith)
            requires
                a == b * q,
        ;
        lemma_fundamental_div_mod_converse(a + b - 1, b, q, b - 1);
    } else {
        assert(a + b - 1 == (q + 1) * b + (r - 1)) by (nonlinear_arith)
            requires
                a == b * q + r,
        ;
        lemma_fundamental_div_mod_converse(a + b - 1, b, q + 1, r - 1);
    }
}

/// The exact source cell range of the destination patch of output index
/// `p`: start at `patch_lo_spec`, end at `patch_hi_spec`. The range is
/// never empty and never reaches past `in_len`.
pub fn patch_range(p: usize, in_len: usize, out_len: usize) -> (r: (usize, usize))
    requires
        1 <= in_len,
        1 <= out_len,
        p < out_len,
        in_len * out_len <= usize::MAX,
    ensures
        r.0 as int == patch_lo_spec(p as int, in_len as int, out_len as int),
        r.1 as int == patch_hi_spec(p as int, in_len as int, out_len as int),
        r.0 < r.1,
        r.1 <= in_len,
{
    proof {
        assert(p * in_len + in_len <= out_len * in_len) by (nonlinear_arith)
            requires
                p < out_len,
                1 <= in_len,
        ;
        assert(out_len * in_len == in_len * out_len) by (nonlinear_arith);
    }
    let a: usize = p * in_len;
    let lo: usize = a / out_len;
    let b: usize = a + in_len;
    let q: usize = b / out_len;
    let rem: usize = b % out_len;
    proof {
        lemma_ceil_div(b as int, out_len as int);
        lemma_fundamental_div_mod(b as int, out_len as int);
        lemma_mod_bound(b as int, out_len as int);
        assert((p as int + 1) * (in_len as int) == p as int * in_len as int + in_len as int)
            by (nonlinear_arith);
    }
    let e: usize = if rem == 0 {
        q
    } else {
        proof {
            // a positive remainder puts the quotient strictly below the
            // dividend, so `q + 1` fits
            assert(q as int <= q as int * out_len as int && q as int * out_len as int
                == out_len as int * q as int) by (nonlinear_arith)
                requires
                    1 <= out_len as int,
                    0 <= q as int,
            ;
        }
        q + 1
    };
    let hi: usize = if e <= in_len {
        e
    } else {
        in_len
    };
    proof {
        let pi = p as int;
        let ini = in_len as int;
        let outi = out_len as int;
        // the range start lies strictly inside the axis
        assert(pi * ini <= outi * (ini - 1) + (outi - 1)) by (nonlinear_arith)
            requires
                pi < outi,
                1 <= ini,
        ;
        lemma_div_is_ordered(pi * ini, outi * (ini - 1) + (outi - 1), outi);
        assert((outi * (ini - 1) + (outi - 1)) / outi == ini - 1) by {
            assert(outi * (ini - 1) + (outi - 1) == (ini - 1) * outi + (outi - 1))
                by (nonlinear_arith);
            lemma_fundamental_div_mod_converse(
                outi * (ini - 1) + (outi - 1),
                outi,
                ini - 1,
                outi - 1,
            );
        }
        // the range end lies strictly past the start
        assert(lo as int * outi <= a as int) by {
            lemma_fundamental_div_mod(a as int, outi);
            lemma_mod_bound(a as int, outi);
            assert(outi * (a as int / outi) == (a as int / outi) * outi) by (nonlinear_arith);
        }
        assert(b as int + outi - 1 >= (lo as int + 1) * outi) by (nonlinear_arith)
            requires
                lo as int * outi <= a as int,
                b as int == a as int + ini,
                1 <= ini,
                1 <= outi,
        ;
        lemma_div_is_ordered((lo as int + 1) * outi, b as int + outi - 1, outi);
        assert(((lo as int + 1) * outi) / outi == lo as int + 1) by {
            lemma_fundamental_div_mod_converse((lo as int + 1) * outi, outi, lo as int + 1, 0);
        }
    }
    (lo, hi)
}

/// The destination patches jointly span the whole axis: the first patch
/// starts at the first source cell and the last patch ends at the axis
/// end.
pub proof fn lemma_patches_cover_axis(in_len: int, out_len: int)
    requires
        1 <= in_len,
        1 <= out_len,
    ensures
        patch_lo_spec(0, in_len, out_len) == 0,
        patch_hi_spec(out_len - 1, in_len, out_len) == in_len,
{
    assert(0 * in_len == 0) by (nonlinear_arith);
    lemma_fundamental_div_mod_converse(0, out_len, 0, 0);
    assert(out_len * in_len == in_len * out_len) by (nonlinear_arith);
    lemma_ceil_div(out_len * in_len, out_len);
    lemma_fundamental_div_mod_converse(in_len * out_len, out_len, in_len, 0);
}

/// Consecutive patches leave no gap: the patch of output index `p + 1`
/// starts no later than the patch of output index `p` ends.
pub proof fn lemma_patches_adjoin(p: int, in_len: int, out_len: int)
    requires
        1 <= in_len,
        1 <= out_len,
        0 <= p < out_len - 1,
    ensures
        patch_lo_spec(p + 1, in_len, out_len) <= patch_hi_spec(p, in_len, out_len),
{
    let a = (p + 1) * in_len;
    assert(0 <= (p + 1) * in_len && (p + 1) * in_len <= out_len * (in_len - 1) + (out_len - 1))
        by (nonlinear_arith)
        requires
            0 <= p + 1 < out_len,
            1 <= in_len,
    ;
    lemma_ceil_div(a, out_len);
    lemma_div_is_ordered(a, a + out_len - 1, out_len);
    // the start of the next patch also stays inside the axis
    lemma_div_is_ordered(a, out_len * (in_len - 1) + (out_len - 1), out_len);
    assert(out_len * (in_len - 1) + (out_len - 1) == (in_len - 1) * out_len + (out_len - 1))
        by (nonlinear_arith);
    lemma_fundamental_div_mod_converse(
        (in_len - 1) * out_len + (out_len - 1),
        out_len,
        in_len - 1,
        out_len - 1,
    );
}

/// The smoothing pass's neighbor coordinate: `p + k - 1`, clamped into
/// `[0, len)` by edge replication.
pub open spec fn clamp_neighbor_spec(p: int, k: int, len: int) -> int
    recommends
        1 <= len,
{
    let n = if p + k >= 1 {
        p + k - 1
    } else {
        0
    };
    if n <= len - 1 {
        n
    } else {
        len - 1
    }
}

/// Clamped neighbor coordinate for the 3x3 smoothing stencil: offset `k`
/// in `{0, 1, 2}` stands for a step of `k - 1`, and coordinates are
/// replicated at the edges, never reflected.
pub fn clamp_neighbor(p: usize, k: usize, len: usize) -> (r: usize)
    requires
        1 <= len,
        p < len,
        k <= 2,
        len <= usize::MAX - 2,
    ensures
        r as int == clamp_neighbor_spec(p as int, k as int, len as int),
        r < len,
{
    let s: usize = p + k;
    let n: usize = if s >= 1 {
        s - 1
    } else {
        0
    };
    if n <= len - 1 {
        n
    } else {
        len - 1
    }
}

} // verus!
