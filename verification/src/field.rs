//! The scalar field whose midline the mesh boundary follows.
//!
//! The field is a sum of two triangle waves whose phases are bent by further
//! triangle waves. It is defined on every integer point, repeats with the
//! period of the wave, stays within `[-FIELD_MAX, FIELD_MAX]`, and changes by
//! a bounded amount per unit step in each argument, which is the lattice
//! form of continuity. The depth coordinate shifts the bending waves, so a
//! slowly growing depth animates the pattern.

use vstd::prelude::*;
use crate::arithmetic::distance;

verus! {

/// Length of one period of the triangle wave, in sampling units.
pub const WAVE_PERIOD: i64 = 4096;

/// Largest magnitude that the triangle wave reaches.
pub const WAVE_AMPLITUDE: i32 = 1024;

/// Largest magnitude that the field reaches.
pub const FIELD_MAX: i32 = 2048;

/// The middle of the field's range: the nominal threshold between the two
/// regions.
pub const FIELD_MIDLINE: i32 = 0;

/// The triangle wave: it rises from 0 to the amplitude over the first quarter
/// period, falls to minus the amplitude over the next half, and rises back
/// to 0 over the last quarter.
#[verifier::opaque]
pub open spec fn wave(t: int) -> int {
    let m = t % (WAVE_PERIOD as int);
    if m < WAVE_AMPLITUDE {
        m
    } else if m < 3 * WAVE_AMPLITUDE {
        2 * WAVE_AMPLITUDE - m
    } else {
        m - WAVE_PERIOD
    }
}

/// The value of the field at `(x, y)` in the slice `depth`.
pub open spec fn field_value(x: int, y: int, depth: int) -> int {
    wave(x + y + wave(x - y + depth)) + wave(y - x + wave(2 * y + depth))
}

/// The field sampler. The field has no settings and no state, so the
/// sampler has no fields.
pub struct FieldSampler {}

impl FieldSampler {
    /// The value of the field at `(x, y)` in the slice `depth`. Defined for
    /// every argument; the same arguments always give the same value.
    pub fn sample(x: i64, y: i64, depth: i64) -> (value: i32)
        ensures
            value == field_value(x as int, y as int, depth as int),
            -FIELD_MAX <= value <= FIELD_MAX,
    {
        let xm: i64 = reduce(x);
        let ym: i64 = reduce(y);
        let dm: i64 = reduce(depth);
        let bend_a: i64 = wave_of(xm - ym + dm);
        let bend_b: i64 = wave_of(2 * ym + dm);
        let a: i64 = wave_of(xm + ym + bend_a);
        let b: i64 = wave_of(ym - xm + bend_b);
        proof {
            // whole periods that the reduction has taken off each argument
            let i = x as int / (WAVE_PERIOD as int);
            let j = y as int / (WAVE_PERIOD as int);
            let k = depth as int / (WAVE_PERIOD as int);
            lemma_wave_periodic(xm - ym + dm, i - j + k);
            lemma_wave_periodic(2 * ym + dm, 2 * j + k);
            lemma_wave_periodic(xm + ym + bend_a, i + j);
            lemma_wave_periodic(ym - xm + bend_b, j - i);
        }
        (a + b) as i32
    }
}

/// The representative of `t` within one period.
fn reduce(t: i64) -> (m: i64)
    ensures
        m == (t as int) % (WAVE_PERIOD as int),
        0 <= m < WAVE_PERIOD,
{
    let m: i64 = t % WAVE_PERIOD;
    if m < 0 {
        m + WAVE_PERIOD
    } else {
        m
    }
}

/// The triangle wave at `t`.
fn wave_of(t: i64) -> (w: i64)
    ensures
        w == wave(t as int),
        -WAVE_AMPLITUDE <= w <= WAVE_AMPLITUDE,
{
    let m: i64 = reduce(t);
    proof {
        reveal(wave);
    }
    let amplitude: i64 = WAVE_AMPLITUDE as i64;
    if m < amplitude {
        m
    } else if m < 3 * amplitude {
        2 * amplitude - m
    } else {
        m - WAVE_PERIOD
    }
}

/// The wave stays within its amplitude.
pub proof fn lemma_wave_range(t: int)
    ensures
        -WAVE_AMPLITUDE <= wave(t) <= WAVE_AMPLITUDE,
{
    reveal(wave);
}

/// The wave repeats: shifting its argument by whole periods changes nothing.
pub proof fn lemma_wave_periodic(t: int, k: int)
    ensures
        wave(t + k * WAVE_PERIOD) == wave(t),
{
    reveal(wave);
    assert((t + k * 4096) % 4096 == t % 4096);
}

/// One unit step moves the wave by at most one.
pub proof fn lemma_wave_unit_step(t: int)
    ensures
        distance(wave(t), wave(t + 1)) <= 1,
{
    reveal(wave);
}

/// The wave never moves by more than its argument does.
pub proof fn lemma_wave_lipschitz(a: int, b: int)
    ensures
        distance(wave(a), wave(b)) <= distance(a, b),
    decreases distance(a, b),
{
    if a < b {
        lemma_wave_lipschitz(a, b - 1);
        lemma_wave_unit_step(b - 1);
    } else if b < a {
        lemma_wave_lipschitz(a - 1, b);
        lemma_wave_unit_step(a - 1);
    }
}

/// The field stays within `[-FIELD_MAX, FIELD_MAX]`.
pub proof fn lemma_field_range(x: int, y: int, depth: int)
    ensures
        -FIELD_MAX <= field_value(x, y, depth) <= FIELD_MAX,
{
    lemma_wave_range(x + y + wave(x - y + depth));
    lemma_wave_range(y - x + wave(2 * y + depth));
}

/// The field is continuous in the lattice sense: between any two sample
/// points its value moves by at most 3 per unit of `x`, 5 per unit of `y` and
/// 2 per unit of depth.
pub proof fn lemma_field_continuous(x0: int, y0: int, d0: int, x1: int, y1: int, d1: int)
    ensures
        distance(field_value(x0, y0, d0), field_value(x1, y1, d1)) <= 3 * distance(x0, x1) + 5
            * distance(y0, y1) + 2 * distance(d0, d1),
{
    let bend_a0 = wave(x0 - y0 + d0);
    let bend_a1 = wave(x1 - y1 + d1);
    let bend_b0 = wave(2 * y0 + d0);
    let bend_b1 = wave(2 * y1 + d1);
    lemma_wave_lipschitz(x0 - y0 + d0, x1 - y1 + d1);
    lemma_wave_lipschitz(2 * y0 + d0, 2 * y1 + d1);
    lemma_wave_lipschitz(x0 + y0 + bend_a0, x1 + y1 + bend_a1);
    lemma_wave_lipschitz(y0 - x0 + bend_b0, y1 - x1 + bend_b1);
}

/// The field repeats with the period of the wave in each argument.
pub proof fn lemma_field_periodic(x: int, y: int, depth: int, i: int, j: int, k: int)
    ensures
        field_value(x + i * WAVE_PERIOD, y + j * WAVE_PERIOD, depth + k * WAVE_PERIOD)
            == field_value(x, y, depth),
{
    let period = WAVE_PERIOD as int;
    let x1 = x + i * period;
    let y1 = y + j * period;
    let d1 = depth + k * period;
    lemma_wave_periodic(x - y + depth, i - j + k);
    lemma_wave_periodic(2 * y + depth, 2 * j + k);
    assert(x1 - y1 + d1 == (x - y + depth) + (i - j + k) * period);
    assert(2 * y1 + d1 == (2 * y + depth) + (2 * j + k) * period);
    let bend_a = wave(x - y + depth);
    let bend_b = wave(2 * y + depth);
    lemma_wave_periodic(x + y + bend_a, i + j);
    lemma_wave_periodic(y - x + bend_b, j - i);
    assert(x1 + y1 + bend_a == (x + y + bend_a) + (i + j) * period);
    assert(y1 - x1 + bend_b == (y - x + bend_b) + (j - i) * period);
}

} // verus!
