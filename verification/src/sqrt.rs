//! Integer square root: the spec-level floor of a square root and a
//! verified binary-search implementation of it.

use vstd::prelude::*;

verus! {

/// The floor of the square root of `n` (and `0` for negative `n`),
/// defined by counting up: the value steps from `s` to `s + 1` exactly
/// when `n` reaches `(s + 1) * (s + 1)`.
pub open spec fn sqrt_floor(n: int) -> int
    decreases n,
{
    if n < 1 {
        0
    } else {
        let s = sqrt_floor(n - 1);
        if (s + 1) * (s + 1) <= n {
            s + 1
        } else {
            s
        }
    }
}

/// `sqrt_floor(n)` really is the floor of the square root: its square is
/// at most `n`, and the next square is beyond `n`.
pub proof fn lemma_sqrt_floor_bounds(n: int)
    requires
        n >= 0,
    ensures
        0 <= sqrt_floor(n),
        sqrt_floor(n) * sqrt_floor(n) <= n,
        n < (sqrt_floor(n) + 1) * (sqrt_floor(n) + 1),
    decreases n,
{
    if n < 1 {
        assert(sqrt_floor(n) == 0);
    } else {
        lemma_sqrt_floor_bounds(n - 1);
        let s = sqrt_floor(n - 1);
        if (s + 1) * (s + 1) <= n {
            assert((s + 2) * (s + 2) > n) by (nonlinear_arith)
                requires
                    s >= 0,
                    n - 1 < (s + 1) * (s + 1),
            {
            }
        }
    }
}

/// Any `r` whose square is at most `n` while the next square is beyond
/// `n` equals `sqrt_floor(n)`.
pub proof fn lemma_sqrt_floor_unique(n: int, r: int)
    requires
        n >= 0,
        r >= 0,
        r * r <= n,
        n < (r + 1) * (r + 1),
    ensures
        r == sqrt_floor(n),
{
    lemma_sqrt_floor_bounds(n);
    let s = sqrt_floor(n);
    if r < s {
        assert((r + 1) * (r + 1) <= s * s) by (nonlinear_arith)
            requires
                0 <= r,
                r + 1 <= s,
        {
        }
    }
    if s < r {
        assert((s + 1) * (s + 1) <= r * r) by (nonlinear_arith)
            requires
                0 <= s,
                s + 1 <= r,
        {
        }
    }
}

/// Floor of the square root of `n`, by binary search on the root.
pub fn isqrt(n: u64) -> (r: u64)
    requires
        n <= 2_000_000_000_000_000_000,
    ensures
        r as int == sqrt_floor(n as int),
        r * r <= n,
        n < (r + 1) * (r + 1),
        r < 1_500_000_000,
{
    let mut lo: u64 = 0;
    let mut hi: u64 = 1_500_000_000;
    assert(1_500_000_000 * 1_500_000_000 == 2_250_000_000_000_000_000int) by (nonlinear_arith);
    while lo + 1 < hi
        invariant
            lo < hi <= 1_500_000_000,
            lo * lo <= n,
            n < hi * hi,
        decreases hi - lo,
    {
        let mid: u64 = lo + (hi - lo) / 2;
        assert(mid * mid <= 2_250_000_000_000_000_000) by (nonlinear_arith)
            requires
                mid <= 1_500_000_000u64,
        {
        }
        if mid * mid <= n {
            lo = mid;
        } else {
            hi = mid;
        }
    }
    proof {
        lemma_sqrt_floor_unique(n as int, lo as int);
    }
    lo
}

} // verus!
