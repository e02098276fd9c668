//! The affine map from base-pair positions to pixel positions.

use vstd::prelude::*;
use vstd::arithmetic::div_mod::{
    lemma_div_is_ordered,
    lemma_div_is_ordered_by_denominator,
    lemma_fundamental_div_mod,
    lemma_mod_bound,
    lemma_div_multiples_vanish,
    lemma_fundamental_div_mod_converse,
};
use vstd::arithmetic::mul::lemma_mul_inequality;

verus! {

/// `viz_min + (viz_max - viz_min) * (x - data_min) / (data_max - data_min)`,
/// the quotient rounded down.
pub open spec fn scaled(x: int, data_min: int, data_max: int, viz_min: int, viz_max: int) -> int {
    viz_min + ((viz_max - viz_min) * (x - data_min)) / (data_max - data_min)
}

/// Floor division of `n` by a positive `d`.
fn floor_div(n: i128, d: i128) -> (q: i128)
    requires
        0 < d <= 0x1_0000_0000_0000_0000,
        -0x1_0000_0000_0000_0000_0000_0000 <= n <= 0x1_0000_0000_0000_0000_0000_0000,
    ensures
        q == n / d,
        -0x1_0000_0000_0000_0000_0000_0000 <= q <= 0x1_0000_0000_0000_0000_0000_0000,
{
    if n >= 0 {
        proof {
            lemma_div_is_ordered(0, n as int, d as int);
            lemma_div_is_ordered_by_denominator(n as int, 1, d as int);
        }
        n / d
    } else {
        let m: i128 = -n;
        let c: i128 = (m + d - 1) / d;
        proof {
            let mi = m as int;
            let di = d as int;
            let ci = c as int;
            let r = (mi + di - 1) % di;
            lemma_fundamental_div_mod(mi + di - 1, di);
            lemma_mod_bound(mi + di - 1, di);
            assert(mi + di - 1 == di * ci + r);
            assert(0 <= ci <= mi) by (nonlinear_arith)
                requires
                    mi + di - 1 == di * ci + r,
                    0 <= r < di,
                    mi > 0,
                    di > 0,
            ;
            let rr = ci * di - mi;
            assert(0 <= rr < di) by (nonlinear_arith)
                requires
                    mi + di - 1 == di * ci + r,
                    0 <= r < di,
                    rr == ci * di - mi,
            ;
            assert(n as int == (-ci) * di + rr) by (nonlinear_arith)
                requires
                    n as int == -mi,
                    rr == ci * di - mi,
            ;
            lemma_fundamental_div_mod_converse(n as int, di, -ci, rr);
        }
        -c
    }
}

/// Maps `x` from the data range `[data_min, data_max]` onto the drawing range
/// `[viz_min, viz_max]`. There is no clamping: a position outside the data
/// range lands outside the drawing range.
pub fn scale_x(x: u64, data_min: u64, data_max: u64, viz_min: u32, viz_max: u32) -> (r: i128)
    requires
        data_min < data_max,
    ensures
        r == scaled(x as int, data_min as int, data_max as int, viz_min as int, viz_max as int),
{
    let span: i128 = viz_max as i128 - viz_min as i128;
    let offset: i128 = x as i128 - data_min as i128;
    assert(-0x1_0000_0000 <= span <= 0x1_0000_0000);
    assert(-0x1_0000_0000_0000_0000 <= offset <= 0x1_0000_0000_0000_0000);
    assert(-0x1_0000_0000_0000_0000_0000_0000 <= span * offset <= 0x1_0000_0000_0000_0000_0000_0000)
        by (nonlinear_arith)
        requires
            -0x1_0000_0000 <= span <= 0x1_0000_0000,
            -0x1_0000_0000_0000_0000 <= offset <= 0x1_0000_0000_0000_0000,
    ;
    let n: i128 = span * offset;
    let d: i128 = data_max as i128 - data_min as i128;
    let q = floor_div(n, d);
    viz_min as i128 + q
}

/// The first position of the data range lands on the first pixel, and the
/// last position on the last pixel.
pub proof fn lemma_scale_boundaries(data_min: int, data_max: int, viz_min: int, viz_max: int)
    requires
        data_min < data_max,
    ensures
        scaled(data_min, data_min, data_max, viz_min, viz_max) == viz_min,
        scaled(data_max, data_min, data_max, viz_min, viz_max) == viz_max,
{
    let d = data_max - data_min;
    assert((viz_max - viz_min) * 0 == 0);
    assert(0int / d == 0);
    assert((viz_max - viz_min) * d == d * (viz_max - viz_min)) by (nonlinear_arith);
    lemma_div_multiples_vanish(viz_max - viz_min, d);
}

/// With a drawing range that runs left to right, the map keeps the order of
/// positions.
pub proof fn lemma_scale_monotonic(
    x: int,
    y: int,
    data_min: int,
    data_max: int,
    viz_min: int,
    viz_max: int,
)
    requires
        data_min < data_max,
        viz_min <= viz_max,
        x <= y,
    ensures
        scaled(x, data_min, data_max, viz_min, viz_max) <= scaled(y, data_min, data_max, viz_min, viz_max),
{
    lemma_mul_inequality(x - data_min, y - data_min, viz_max - viz_min);
    assert((x - data_min) * (viz_max - viz_min) == (viz_max - viz_min) * (x - data_min)) by (nonlinear_arith);
    assert((y - data_min) * (viz_max - viz_min) == (viz_max - viz_min) * (y - data_min)) by (nonlinear_arith);
    lemma_div_is_ordered(
        (viz_max - viz_min) * (x - data_min),
        (viz_max - viz_min) * (y - data_min),
        data_max - data_min,
    );
}

} // verus!
