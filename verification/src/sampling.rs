//! The lattice of a sub-sampled noise field: where the samples are taken, and
//! how far a coordinate lies from the sample below it.

use vstd::prelude::*;

verus! {

/// The remainder of `dividend` by a positive `divisor` that is never negative,
/// whatever the sign of `dividend`.
pub fn modulus(dividend: i32, divisor: i32) -> (r: i32)
    requires
        divisor > 0,
    ensures
        r == dividend as int % divisor as int,
        0 <= r < divisor,
{
    let a = dividend as i64;
    let b = divisor as i64;
    let t = a % b;
    proof {
        if a < 0 {
            let m = (-a) % (b as int);
            let q = (-a) / (b as int);
            vstd::arithmetic::div_mod::lemma_fundamental_div_mod(-a, b as int);
            assert(t == -m);
            if m == 0 {
                assert(a == (-q) * b + 0) by (nonlinear_arith)
                    requires
                        -a == b * q + m,
                        m == 0,
                ;
                vstd::arithmetic::div_mod::lemma_fundamental_div_mod_converse(
                    a as int,
                    b as int,
                    -q,
                    0,
                );
            } else {
                assert(a == (-q - 1) * b + (b - m)) by (nonlinear_arith)
                    requires
                        -a == b * q + m,
                ;
                vstd::arithmetic::div_mod::lemma_fundamental_div_mod_converse(
                    a as int,
                    b as int,
                    -q - 1,
                    b - m,
                );
            }
        }
        vstd::arithmetic::div_mod::lemma_small_mod((a as int % b as int) as nat, b as nat);
        if t + b == b {
            vstd::arithmetic::div_mod::lemma_mod_self_0(b as int);
        } else if t + b > b {
            vstd::arithmetic::div_mod::lemma_mod_multiples_vanish(1, t as int, b as int);
        } else {
            vstd::arithmetic::div_mod::lemma_small_mod((t + b) as nat, b as nat);
        }
    }
    let r = (t + b) % b;
    r as i32
}

/// The place of one coordinate in a lattice of samples: the sample points
/// below and above it, and its distance from the one below.
#[derive(Clone, Copy, Debug, PartialEq, Eq, Structural)]
pub struct SampleCell {
    /// The greatest sample point not above the coordinate.
    pub low: i64,
    /// The next sample point after `low`.
    pub high: i64,
    /// The distance of the coordinate from `low`, in whole steps.
    pub offset: i32,
}

/// The cell of `x` in the lattice of the multiples of `sample_rate`.
pub open spec fn cell_of(x: int, sample_rate: int) -> SampleCell {
    SampleCell {
        low: (x - x % sample_rate) as i64,
        high: (x - x % sample_rate + sample_rate) as i64,
        offset: (x % sample_rate) as i32,
    }
}

/// Finds the lattice cell of a coordinate: the multiples of `sample_rate` that
/// enclose it, and its distance from the lower one, which is the weight of the
/// upper sample in `sample_rate`-ths.
pub fn sample_cell(x: i32, sample_rate: i32) -> (cell: SampleCell)
    requires
        sample_rate > 0,
    ensures
        cell == cell_of(x as int, sample_rate as int),
        cell.low <= x < cell.high,
        cell.high == cell.low + sample_rate,
        cell.low as int % sample_rate as int == 0,
        cell.offset == x - cell.low,
        x as int % sample_rate as int == 0 ==> cell.low == x && cell.offset == 0,
{
    let offset = modulus(x, sample_rate);
    let low: i64 = x as i64 - offset as i64;
    proof {
        vstd::arithmetic::div_mod::lemma_fundamental_div_mod(x as int, sample_rate as int);
        vstd::arithmetic::div_mod::lemma_mod_multiples_basic(
            x as int / sample_rate as int,
            sample_rate as int,
        );
        assert(sample_rate * (x as int / sample_rate as int) == (x as int / sample_rate as int)
            * sample_rate) by (nonlinear_arith);
    }
    SampleCell { low, high: low + sample_rate as i64, offset }
}

/// On a sample point nothing is interpolated: a coordinate that is a multiple
/// of the sample rate is its own lower sample point, at distance zero, so the
/// upper samples have weight zero.
pub proof fn lemma_sample_point(x: int, sample_rate: int)
    requires
        sample_rate > 0,
        x % sample_rate == 0,
        i32::MIN <= x <= i32::MAX,
    ensures
        cell_of(x, sample_rate).low == x,
        cell_of(x, sample_rate).offset == 0,
{
}

} // verus!
