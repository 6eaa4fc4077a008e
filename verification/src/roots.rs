//! The square root of a natural number, rounded up.

use vstd::prelude::*;
use crate::arithmetic::lemma_square_monotonic;

verus! {

/// `d` is the square root of `s` rounded up: the least natural number whose
/// square reaches `s`.
pub open spec fn is_ceil_sqrt(s: int, d: int) -> bool {
    &&& 0 <= d
    &&& s <= d * d
    &&& d > 0 ==> (d - 1) * (d - 1) < s
}

/// The square root of `s` rounded up.
pub open spec fn ceil_sqrt(s: int) -> int {
    choose|d: int| is_ceil_sqrt(s, d)
}

/// Computes the square root of `s` rounded up, by bisection.
pub fn ceil_sqrt_u64(s: u64) -> (d: u64)
    ensures
        d == ceil_sqrt(s as int),
        is_ceil_sqrt(s as int, d as int),
        d <= 0x1_0000_0000,
{
    let mut lo: u64 = 0;
    let mut hi: u64 = 0x1_0000_0000;
    assert(0x1_0000_0000int * 0x1_0000_0000int == 0x1_0000_0000_0000_0000int) by (nonlinear_arith);
    while lo < hi
        invariant
            lo <= hi <= 0x1_0000_0000,
            s <= hi * hi,
            lo > 0 ==> (lo - 1) * (lo - 1) < s,
        decreases hi - lo,
    {
        let mid: u64 = lo + (hi - lo) / 2;
        assert(mid * mid <= 0xFFFF_FFFF_FFFF_FFFF) by (nonlinear_arith)
            requires
                mid <= 0xFFFF_FFFF,
        ;
        if mid * mid >= s {
            hi = mid;
        } else {
            lo = mid + 1;
        }
    }
    proof {
        lemma_ceil_sqrt_unique(s as int, lo as int);
    }
    lo
}

/// At most one number is the rounded-up square root of `s`, so whatever
/// meets `is_ceil_sqrt` is `ceil_sqrt(s)`.
pub proof fn lemma_ceil_sqrt_unique(s: int, d: int)
    requires
        is_ceil_sqrt(s, d),
    ensures
        ceil_sqrt(s) == d,
{
    let e = ceil_sqrt(s);
    assert(is_ceil_sqrt(s, e));
    if e < d {
        lemma_square_monotonic(e, d - 1);
    }
    if d < e {
        lemma_square_monotonic(d, e - 1);
    }
}

/// Every natural number has a rounded-up square root.
pub proof fn lemma_ceil_sqrt_exists(s: int)
    requires
        0 <= s,
    ensures
        is_ceil_sqrt(s, ceil_sqrt(s)),
    decreases s,
{
    if s == 0 {
        assert(is_ceil_sqrt(0, 0));
    } else {
        lemma_ceil_sqrt_exists(s - 1);
        let d = ceil_sqrt(s - 1);
        if d > 0 && s <= d * d {
            assert(is_ceil_sqrt(s, d));
        } else {
            assert(d * d < s) by (nonlinear_arith)
                requires
                    d >= 0,
                    0 < s,
                    !(d > 0 && s <= d * d),
            ;
            assert(s <= (d + 1) * (d + 1)) by (nonlinear_arith)
                requires
                    d >= 0,
                    s - 1 <= d * d,
            ;
            assert(d + 1 - 1 == d);
            assert(is_ceil_sqrt(s, d + 1));
        }
    }
}

/// The rounded-up square root of a number beyond `r` squared is beyond `r`.
pub proof fn lemma_ceil_sqrt_exceeds(s: int, r: int)
    requires
        0 <= r,
        r * r < s,
    ensures
        r < ceil_sqrt(s),
{
    lemma_ceil_sqrt_exists(s);
    let d = ceil_sqrt(s);
    if d <= r {
        lemma_square_monotonic(d, r);
    }
}

} // verus!
