//! Verified integer square root, used to turn the exact radicand of the
//! correlation formula into the best rational lower bound of its root.

use vstd::prelude::*;

verus! {

/// Largest radicand the square root accepts; chosen so that the binary
/// search's upper bracket can be squared without overflowing an `i128`.
pub const ISQRT_MAX: i128 = 400_000_000_000_000_000_000_000_000_000_000;

/// Upper bracket for the search: `2^55`, whose square exceeds `ISQRT_MAX`.
pub const ISQRT_HI: i128 = 36_028_797_018_963_968;

/// Floor of the square root of `n`, by binary search.
pub fn isqrt(n: i128) -> (r: i128)
    requires
        0 <= n <= ISQRT_MAX,
    ensures
        0 <= r,
        r * r <= n,
        n < (r + 1) * (r + 1),
{
    let mut lo: i128 = 0;
    let mut hi: i128 = ISQRT_HI;
    assert(ISQRT_HI * ISQRT_HI > ISQRT_MAX) by (nonlinear_arith);
    while hi - lo > 1
        invariant
            0 <= lo < hi <= ISQRT_HI,
            lo * lo <= n,
            n < hi * hi,
            n <= ISQRT_MAX,
        decreases hi - lo,
    {
        let mid: i128 = lo + (hi - lo) / 2;
        assert(lo < mid < hi);
        assert(mid * mid <= ISQRT_HI * ISQRT_HI) by (nonlinear_arith)
            requires
                0 <= mid <= ISQRT_HI,
        ;
        if mid * mid <= n {
            lo = mid;
        } else {
            hi = mid;
        }
    }
    lo
}

} // verus!
