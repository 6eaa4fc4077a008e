//! Facts about quotients, products and squares of integers that the proofs
//! of the other modules share.

use vstd::prelude::*;
use vstd::arithmetic::div_mod::{lemma_fundamental_div_mod, lemma_mod_bound};

verus! {

/// The distance between two integers.
pub open spec fn distance(a: int, b: int) -> int {
    if a <= b {
        b - a
    } else {
        a - b
    }
}

/// The magnitude of an integer.
pub open spec fn magnitude_of(a: int) -> int {
    if a >= 0 {
        a
    } else {
        -a
    }
}

/// Squares grow with their argument on the naturals.
pub proof fn lemma_square_monotonic(a: int, b: int)
    requires
        0 <= a <= b,
    ensures
        a * a <= b * b,
{
    assert(a * a <= b * b) by (nonlinear_arith)
        requires
            0 <= a <= b,
    ;
}

/// Squares grow strictly with their argument on the naturals.
pub proof fn lemma_square_strictly_monotonic(a: int, b: int)
    requires
        0 <= a < b,
    ensures
        a * a < b * b,
{
    assert(a * a < b * b) by (nonlinear_arith)
        requires
            0 <= a < b,
    ;
}

/// A quotient by a positive divisor brackets its dividend.
pub proof fn lemma_quotient_brackets(x: int, d: int)
    requires
        0 < d,
    ensures
        (x / d) * d <= x < (x / d) * d + d,
{
    lemma_fundamental_div_mod(x, d);
    lemma_mod_bound(x, d);
    assert((x / d) * d == d * (x / d)) by (nonlinear_arith);
}

/// Among fractions of one length, the greater fraction reaches at least as
/// far: if `a / b <= c / d` then `floor(a * len / b) <= floor(c * len / d)`.
pub proof fn lemma_fraction_monotonic(a: int, b: int, c: int, d: int, len: int)
    requires
        0 <= a,
        0 < b,
        0 <= c,
        0 < d,
        0 <= len,
        a * d <= c * b,
    ensures
        (a * len) / b <= (c * len) / d,
{
    let q = (a * len) / b;
    let r = (c * len) / d;
    lemma_quotient_brackets(a * len, b);
    lemma_quotient_brackets(c * len, d);
    assert(q <= r) by (nonlinear_arith)
        requires
            q * b <= a * len,
            c * len < r * d + d,
            a * d <= c * b,
            0 < b,
            0 < d,
            0 <= len,
            0 <= a,
            0 <= c,
    {
        if q > r {
            assert(q * d >= r * d + d);
            assert((q * d) * b > (c * len) * b);
            assert((q * b) * d <= (a * len) * d);
            assert((a * len) * d == (a * d) * len);
            assert((a * d) * len <= (c * b) * len);
            assert((q * d) * b == (q * b) * d);
            assert((c * b) * len == (c * len) * b);
        }
    }
}

/// Scaling a magnitude by a proper fraction shrinks it.
pub proof fn lemma_scaled_magnitude(m: int, num: int, den: int)
    requires
        0 <= m,
        0 < num < den,
    ensures
        0 <= (m * num) / den <= m,
        m > 0 ==> (m * num) / den < m,
{
    let q = (m * num) / den;
    lemma_quotient_brackets(m * num, den);
    assert(0 <= q && q <= m && (m > 0 ==> q < m)) by (nonlinear_arith)
        requires
            q * den <= m * num,
            m * num < q * den + den,
            0 <= m,
            0 < num < den,
    ;
}

} // verus!
