//! The interpolation engine: computes `y(x)` for a query point against a
//! curve record by checked fixed-point linear interpolation between the two
//! neighbouring grid samples, with an exact grid hit returned verbatim.

use vstd::prelude::*;
use crate::curve::{Curve, CurveView, MAX_Y_CNT};
use crate::codec::record_decode;
use crate::decimal::{
    Decimal, MathError, DECIMAL_UNIT, dec_add, dec_sub, dec_mul, dec_div, dec_pow, dec_floor,
    dec_from_scale, in_i128, lemma_pow10_unit, trunc_div,
};
use crate::error::{CurvyError, LayoutError};

verus! {

/// Failure of a lookup.
#[derive(Clone, Copy, Debug, PartialEq, Eq, Structural)]
pub enum CalcError {
    /// The scaled query lies outside `[x0, x_last]`.
    OutOfRange,
    /// Checked fixed-point arithmetic failed.
    Math(MathError),
    /// The raw record bytes were rejected.
    Record(LayoutError),
}

/// The unit counts of a lookup result, with its error passed through.
pub open spec fn calc_units(r: Result<Decimal, CalcError>) -> Result<int, CalcError> {
    match r {
        Ok(d) => Ok(d.units as int),
        Err(e) => Err(e),
    }
}

/// The blended value for a query that falls strictly between two samples:
/// both neighbouring grid coordinates and samples are lifted to decimals,
/// the query's fractional position on the segment is taken by checked
/// division, and the sample difference is scaled by it.
pub open spec fn spec_calc_blend(
    ys: Seq<u32>,
    decimals: u8,
    x_step: u32,
    x0u: int,
    xs: int,
    pre: int,
) -> Result<int, CalcError> {
    if pre + 1 > u64::MAX {
        Err(CalcError::Math(MathError::Overflow))
    } else if pre * x_step > u64::MAX {
        Err(CalcError::Math(MathError::Overflow))
    } else {
        match dec_from_scale(pre * x_step, 0) {
            Err(e) => Err(CalcError::Math(e)),
            Ok(au) => match dec_add(x0u, au) {
                Err(e) => Err(CalcError::Math(e)),
                Ok(prexu) => if (pre + 1) * x_step > u64::MAX {
                    Err(CalcError::Math(MathError::Overflow))
                } else {
                    match dec_from_scale((pre + 1) * x_step, 0) {
                        Err(e) => Err(CalcError::Math(e)),
                        Ok(bu) => match dec_add(x0u, bu) {
                            Err(e) => Err(CalcError::Math(e)),
                            Ok(postxu) => if pre >= ys.len() {
                                Err(CalcError::Math(MathError::OutOfRange))
                            } else {
                                match dec_from_scale(ys[pre] as int, decimals as nat) {
                                    Err(e) => Err(CalcError::Math(e)),
                                    Ok(preyu) => if pre + 1 >= ys.len() {
                                        Err(CalcError::Math(MathError::OutOfRange))
                                    } else {
                                        match dec_from_scale(ys[pre + 1] as int, decimals as nat) {
                                            Err(e) => Err(CalcError::Math(e)),
                                            Ok(postyu) => match dec_sub(postxu, prexu) {
                                                Err(e) => Err(CalcError::Math(e)),
                                                Ok(diffx) => match dec_sub(xs, prexu) {
                                                    Err(e) => Err(CalcError::Math(e)),
                                                    Ok(dx) => match dec_div(dx, diffx) {
                                                        Err(e) => Err(CalcError::Math(e)),
                                                        Ok(n) => match dec_sub(postyu, preyu) {
                                                            Err(e) => Err(CalcError::Math(e)),
                                                            Ok(diffy) => match dec_mul(diffy, n) {
                                                                Err(e) => Err(CalcError::Math(e)),
                                                                Ok(m) => match dec_add(m, preyu) {
                                                                    Err(e) => Err(CalcError::Math(e)),
                                                                    Ok(res) => Ok(res),
                                                                },
                                                            },
                                                        },
                                                    },
                                                },
                                            },
                                        }
                                    },
                                }
                            },
                        },
                    }
                },
            },
        }
    }
}

/// The lookup once the scaled query `xs` passed the range check: the grid
/// index is taken by checked division; an exact integer index returns the
/// stored sample at `decimals` scale, anything else is blended.
pub open spec fn spec_calc_interp(
    ys: Seq<u32>,
    decimals: u8,
    x_step: u32,
    x0u: int,
    xs: int,
) -> Result<int, CalcError> {
    match dec_from_scale(x_step as int, 0) {
        Err(e) => Err(CalcError::Math(e)),
        Ok(stepu) => match dec_sub(xs, x0u) {
            Err(e) => Err(CalcError::Math(e)),
            Ok(diff) => match dec_div(diff, stepu) {
                Err(e) => Err(CalcError::Math(e)),
                Ok(idxu) => match dec_floor(idxu) {
                    Err(e) => Err(CalcError::Math(e)),
                    Ok(pre) => match dec_from_scale(pre, 0) {
                        Err(e) => Err(CalcError::Math(e)),
                        Ok(preu) => if idxu == preu {
                            if pre >= ys.len() {
                                Err(CalcError::Math(MathError::OutOfRange))
                            } else {
                                match dec_from_scale(ys[pre] as int, decimals as nat) {
                                    Err(e) => Err(CalcError::Math(e)),
                                    Ok(v) => Ok(v),
                                }
                            }
                        } else {
                            spec_calc_blend(ys, decimals, x_step, x0u, xs, pre)
                        },
                    },
                },
            },
        },
    }
}

/// The whole lookup over the meaningful samples `ys`: the last grid
/// coordinate is computed, the query is rescaled from human units by
/// `10^decimals`, queries outside `[x0, x_last]` are rejected, and the rest
/// is interpolation.
pub open spec fn spec_calc_y_with_params(
    ys: Seq<u32>,
    decimals: u8,
    x_step: u32,
    x0u: int,
    xu: int,
) -> Result<int, CalcError> {
    if ys.len() == 0 {
        Err(CalcError::Math(MathError::Overflow))
    } else if (ys.len() - 1) * x_step > usize::MAX {
        Err(CalcError::Math(MathError::Overflow))
    } else {
        match dec_from_scale((ys.len() - 1) * x_step, 0) {
            Err(e) => Err(CalcError::Math(e)),
            Ok(rhsu) => match dec_add(x0u, rhsu) {
                Err(e) => Err(CalcError::Math(e)),
                Ok(xlast) => match dec_pow(10 * (DECIMAL_UNIT as int), decimals as nat) {
                    Err(e) => Err(CalcError::Math(e)),
                    Ok(p) => match dec_mul(xu, p) {
                        Err(e) => Err(CalcError::Math(e)),
                        Ok(xs) => if !(x0u <= xs <= xlast) {
                            Err(CalcError::OutOfRange)
                        } else {
                            spec_calc_interp(ys, decimals, x_step, x0u, xs)
                        },
                    },
                },
            },
        }
    }
}

/// The lookup against a whole record: `x0` is lifted to a decimal and the
/// first `y_count` samples are consulted.
pub open spec fn spec_calc_y(c: CurveView, xu: int) -> Result<int, CalcError> {
    match dec_from_scale(c.x0 as int, 0) {
        Err(e) => Err(CalcError::Math(e)),
        Ok(x0u) => spec_calc_y_with_params(
            c.y.take(c.y_count as int),
            c.decimals,
            c.x_step,
            x0u,
            xu,
        ),
    }
}

/// The lookup against raw slot bytes: the record is decoded and its stored
/// sample count checked against the sample array before any arithmetic.
pub open spec fn spec_calc_y_raw(b: Seq<u8>, xu: int) -> Result<int, CalcError> {
    match record_decode(b) {
        Ok(c) => if c.y_count as int > MAX_Y_CNT {
            Err(CalcError::Record(LayoutError::SampleCount))
        } else {
            spec_calc_y(c, xu)
        },
        Err(e) => match e {
            CurvyError::Record(le) => Err(CalcError::Record(le)),
            _ => Err(CalcError::Record(LayoutError::Size)),
        },
    }
}

/// Computes `y` at the query point `x` (in human units) by checked
/// fixed-point linear interpolation over the samples `y`, whose grid starts
/// at `x0` and advances by `x_step` per sample, all at `decimals` scale.
pub fn calc_y_with_params(
    y: &[u32],
    decimals: u8,
    x_step: u32,
    x0: Decimal,
    x: Decimal,
) -> (r: Result<Decimal, CalcError>)
    ensures
        calc_units(r) == spec_calc_y_with_params(
            y@,
            decimals,
            x_step,
            x0.units as int,
            x.units as int,
        ),
{
    let len_minus = match y.len().checked_sub(1) {
        Some(v) => v,
        None => {
            return Err(CalcError::Math(MathError::Overflow));
        },
    };
    let rhs = match len_minus.checked_mul(x_step as usize) {
        Some(v) => v,
        None => {
            return Err(CalcError::Math(MathError::Overflow));
        },
    };
    let rhs_dec = match Decimal::from_i128_with_scale(rhs as i128, 0) {
        Ok(v) => v,
        Err(e) => {
            return Err(CalcError::Math(e));
        },
    };
    let x_last = match x0.checked_add(&rhs_dec) {
        Ok(v) => v,
        Err(e) => {
            return Err(CalcError::Math(e));
        },
    };
    proof {
        lemma_pow10_unit();
    }
    let ten = match Decimal::from_i128_with_scale(10, 0) {
        Ok(v) => v,
        Err(e) => {
            return Err(CalcError::Math(e));
        },
    };
    let pow = match ten.checked_pow(decimals as u64) {
        Ok(v) => v,
        Err(e) => {
            return Err(CalcError::Math(e));
        },
    };
    let x_scaled = match x.checked_mul(&pow) {
        Ok(v) => v,
        Err(e) => {
            return Err(CalcError::Math(e));
        },
    };
    if !(x0.units <= x_scaled.units && x_scaled.units <= x_last.units) {
        return Err(CalcError::OutOfRange);
    }
    let x_step_dec = match Decimal::from_i128_with_scale(x_step as i128, 0) {
        Ok(v) => v,
        Err(e) => {
            return Err(CalcError::Math(e));
        },
    };
    let diff = match x_scaled.checked_sub(&x0) {
        Ok(v) => v,
        Err(e) => {
            return Err(CalcError::Math(e));
        },
    };
    let x_idx_dec = match diff.checked_div(&x_step_dec) {
        Ok(v) => v,
        Err(e) => {
            return Err(CalcError::Math(e));
        },
    };
    let pre_idx = match x_idx_dec.floor() {
        Ok(v) => v,
        Err(e) => {
            return Err(CalcError::Math(e));
        },
    };
    let pre_dec = match Decimal::from_i128_with_scale(pre_idx as i128, 0) {
        Ok(v) => v,
        Err(e) => {
            return Err(CalcError::Math(e));
        },
    };
    if x_idx_dec.units == pre_dec.units {
        if pre_idx >= y.len() as u64 {
            return Err(CalcError::Math(MathError::OutOfRange));
        }
        let sample = *vstd::slice::slice_index_get(y, pre_idx as usize);
        return match Decimal::from_i128_with_scale(sample as i128, decimals as u32) {
            Ok(v) => Ok(v),
            Err(e) => Err(CalcError::Math(e)),
        };
    }
    let post_idx = match pre_idx.checked_add(1) {
        Some(v) => v,
        None => {
            return Err(CalcError::Math(MathError::Overflow));
        },
    };
    let pre_rhs = match pre_idx.checked_mul(x_step as u64) {
        Some(v) => v,
        None => {
            return Err(CalcError::Math(MathError::Overflow));
        },
    };
    let pre_rhs_dec = match Decimal::from_i128_with_scale(pre_rhs as i128, 0) {
        Ok(v) => v,
        Err(e) => {
            return Err(CalcError::Math(e));
        },
    };
    let pre_x = match x0.checked_add(&pre_rhs_dec) {
        Ok(v) => v,
        Err(e) => {
            return Err(CalcError::Math(e));
        },
    };
    let post_rhs = match post_idx.checked_mul(x_step as u64) {
        Some(v) => v,
        None => {
            return Err(CalcError::Math(MathError::Overflow));
        },
    };
    let post_rhs_dec = match Decimal::from_i128_with_scale(post_rhs as i128, 0) {
        Ok(v) => v,
        Err(e) => {
            return Err(CalcError::Math(e));
        },
    };
    let post_x = match x0.checked_add(&post_rhs_dec) {
        Ok(v) => v,
        Err(e) => {
            return Err(CalcError::Math(e));
        },
    };
    if pre_idx >= y.len() as u64 {
        return Err(CalcError::Math(MathError::OutOfRange));
    }
    let pre_sample = *vstd::slice::slice_index_get(y, pre_idx as usize);
    let pre_y = match Decimal::from_i128_with_scale(pre_sample as i128, decimals as u32) {
        Ok(v) => v,
        Err(e) => {
            return Err(CalcError::Math(e));
        },
    };
    if post_idx >= y.len() as u64 {
        return Err(CalcError::Math(MathError::OutOfRange));
    }
    let post_sample = *vstd::slice::slice_index_get(y, post_idx as usize);
    let post_y = match Decimal::from_i128_with_scale(post_sample as i128, decimals as u32) {
        Ok(v) => v,
        Err(e) => {
            return Err(CalcError::Math(e));
        },
    };
    let diff_x = match post_x.checked_sub(&pre_x) {
        Ok(v) => v,
        Err(e) => {
            return Err(CalcError::Math(e));
        },
    };
    let dx = match x_scaled.checked_sub(&pre_x) {
        Ok(v) => v,
        Err(e) => {
            return Err(CalcError::Math(e));
        },
    };
    let n = match dx.checked_div(&diff_x) {
        Ok(v) => v,
        Err(e) => {
            return Err(CalcError::Math(e));
        },
    };
    let diff_y = match post_y.checked_sub(&pre_y) {
        Ok(v) => v,
        Err(e) => {
            return Err(CalcError::Math(e));
        },
    };
    let m = match diff_y.checked_mul(&n) {
        Ok(v) => v,
        Err(e) => {
            return Err(CalcError::Math(e));
        },
    };
    let res = match m.checked_add(&pre_y) {
        Ok(v) => v,
        Err(e) => {
            return Err(CalcError::Math(e));
        },
    };
    Ok(res)
}

/// Computes `y` at the query point `x` against a deserialized record,
/// consulting the first `y_count` samples.
pub fn calc_y(x1: Decimal, curve: &Curve) -> (r: Result<Decimal, CalcError>)
    requires
        curve@.wf(),
        curve@.y_count as int <= curve@.y.len(),
    ensures
        calc_units(r) == spec_calc_y(curve@, x1.units as int),
{
    let x0 = match Decimal::from_i128_with_scale(curve.x0 as i128, 0) {
        Ok(v) => v,
        Err(e) => {
            return Err(CalcError::Math(e));
        },
    };
    let count = curve.y_count as usize;
    let ys = vstd::slice::slice_subrange(curve.y.as_slice(), 0, count);
    calc_y_with_params(ys, curve.decimals, curve.x_step, x0, x1)
}

/// Computes `y` at the query point `x` against raw slot bytes, decoding and
/// checking the record first.
pub fn calc_y_raw(x: Decimal, curve_account_data: &[u8]) -> (r: Result<Decimal, CalcError>)
    ensures
        calc_units(r) == spec_calc_y_raw(curve_account_data@, x.units as int),
{
    let curve = match Curve::try_from_bytes(curve_account_data) {
        Ok(c) => c,
        Err(e) => {
            return match e {
                CurvyError::Record(le) => Err(CalcError::Record(le)),
                _ => vstd::pervasive::unreached(),
            };
        },
    };
    if curve.y_count as usize > MAX_Y_CNT {
        return Err(CalcError::Record(LayoutError::SampleCount));
    }
    calc_y(x, &curve)
}

/// Truncating division recovers the factor of an exact multiple.
proof fn lemma_trunc_div_exact(k: int, d: int)
    requires
        d >= 1,
    ensures
        trunc_div(k * d, d) == k,
{
    if k == 0 {
    } else if k > 0 {
        assert(k * d > 0) by (nonlinear_arith)
            requires
                k > 0 && d >= 1,
        ;
        vstd::arithmetic::div_mod::lemma_div_multiples_vanish(k, d);
        assert(d * k == k * d);
    } else {
        assert(k * d < 0) by (nonlinear_arith)
            requires
                k < 0 && d >= 1,
        ;
        assert((k * d) * -1 == (k * -1) * d) by (nonlinear_arith);
        vstd::arithmetic::div_mod::lemma_div_multiples_vanish(k * -1, d);
        assert(d * (k * -1) == (k * -1) * d);
    }
}

/// Raising ten to a small power in checked decimals is exact.
proof fn lemma_ten_pow(e: nat)
    requires
        e <= 13,
    ensures
        dec_pow(10 * (DECIMAL_UNIT as int), e) == Ok::<int, MathError>(
            crate::decimal::pow10(e) * (DECIMAL_UNIT as int),
        ),
    decreases e,
{
    let u = DECIMAL_UNIT as int;
    lemma_pow10_unit();
    if e == 0 {
    } else {
        lemma_ten_pow((e - 1) as nat);
        let q = crate::decimal::pow10((e - 1) as nat);
        let p = q * u;
        crate::decimal::lemma_pow10_mono((e - 1) as nat, 12);
        crate::decimal::lemma_pow10_pos((e - 1) as nat);
        assert(crate::decimal::pow10(e) == 10 * q);
        assert(p * (10 * u) == ((10 * q) * u) * u) by (nonlinear_arith)
            requires
                p == q * u,
        ;
        assert(q * u <= 1_000_000_000_000 * u);
        lemma_trunc_div_exact((10 * q) * u, u);
    }
}

/// The lookup computes the last grid coordinate and the rescaled query
/// exactly, then decides the range check on them.
proof fn lemma_calc_reaches_range_check(ys: Seq<u32>, decimals: u8, x_step: u32, x0: u32, xu: int)
    requires
        1 <= ys.len() <= MAX_Y_CNT,
        x_step >= 1,
        decimals <= 9,
        x0 + x_step * (ys.len() - 1) <= u32::MAX,
        in_i128(xu * (crate::decimal::pow10(decimals as nat) * (DECIMAL_UNIT as int))),
    ensures
        ({
            let u = DECIMAL_UNIT as int;
            let xs = xu * crate::decimal::pow10(decimals as nat);
            let xlast = (x0 + x_step * (ys.len() - 1)) * u;
            spec_calc_y_with_params(ys, decimals, x_step, x0 * u, xu) == if !(x0 * u <= xs
                <= xlast) {
                Err::<int, CalcError>(CalcError::OutOfRange)
            } else {
                spec_calc_interp(ys, decimals, x_step, x0 * u, xs)
            }
        }),
{
    let u = DECIMAL_UNIT as int;
    let len = ys.len() as int;
    let span = (len - 1) * x_step;
    let pw = crate::decimal::pow10(decimals as nat);
    lemma_pow10_unit();
    assert(span == x_step * (len - 1));
    assert(span >= 0) by {
        vstd::arithmetic::mul::lemma_mul_nonnegative(len - 1, x_step as int);
    }
    assert(span <= u32::MAX);
    assert(dec_from_scale(span, 0) == Ok::<int, MathError>(span * u));
    assert(dec_add(x0 * u, span * u) == Ok::<int, MathError>((x0 + span) * u));
    lemma_ten_pow(decimals as nat);
    assert(xu * (pw * u) == (xu * pw) * u) by {
        vstd::arithmetic::mul::lemma_mul_is_associative(xu, pw, u);
    }
    lemma_trunc_div_exact(xu * pw, u);
    assert(dec_mul(xu, pw * u) == Ok::<int, MathError>(xu * pw));
}

/// An exact grid hit: a query whose rescaled value lands exactly on grid
/// point `i` returns the stored sample `ys[i]`, lifted to `decimals` scale
/// with no interpolation and no rounding drift.
pub proof fn lemma_grid_point_exact(
    ys: Seq<u32>,
    decimals: u8,
    x_step: u32,
    x0: u32,
    xu: int,
    i: int,
)
    requires
        1 <= ys.len() <= MAX_Y_CNT,
        x_step >= 1,
        decimals <= 9,
        x0 + x_step * (ys.len() - 1) <= u32::MAX,
        0 <= i < ys.len(),
        xu * crate::decimal::pow10(decimals as nat) == (x0 + x_step * i) * (DECIMAL_UNIT as int),
    ensures
        spec_calc_y_with_params(ys, decimals, x_step, x0 * (DECIMAL_UNIT as int), xu) == Ok::<
            int,
            CalcError,
        >(ys[i] * crate::decimal::pow10((12 - decimals) as nat)),
{
    let u = DECIMAL_UNIT as int;
    let len = ys.len() as int;
    let g = x0 + x_step * i;
    let xlast_raw = x0 + x_step * (len - 1);
    let pw = crate::decimal::pow10(decimals as nat);
    let xs = xu * pw;
    lemma_pow10_unit();
    assert(x_step * i >= 0) by {
        vstd::arithmetic::mul::lemma_mul_nonnegative(x_step as int, i);
    }
    assert(x_step * i <= x_step * (len - 1)) by {
        vstd::arithmetic::mul::lemma_mul_inequality(i, len - 1, x_step as int);
        assert(i * (x_step as int) == x_step * i);
        assert((len - 1) * (x_step as int) == x_step * (len - 1));
    }
    assert(x0 <= g <= xlast_raw <= u32::MAX);
    assert(in_i128(xu * (pw * u))) by {
        assert(xu * (pw * u) == xs * u) by {
            vstd::arithmetic::mul::lemma_mul_is_associative(xu, pw, u);
        }
    }
    lemma_calc_reaches_range_check(ys, decimals, x_step, x0, xu);
    assert(x0 * u <= xs <= xlast_raw * u);
    // the interpolation stage
    assert(dec_from_scale(x_step as int, 0) == Ok::<int, MathError>(x_step * u));
    let diff = xs - x0 * u;
    assert(diff == (x_step * i) * u);
    assert(dec_sub(xs, x0 * u) == Ok::<int, MathError>(diff));
    assert(diff * u == (i * u) * ((x_step as int) * u)) by (nonlinear_arith)
        requires
            diff == (x_step * i) * u,
    ;
    lemma_trunc_div_exact(i * u, (x_step as int) * u);
    assert(dec_div(diff, x_step * u) == Ok::<int, MathError>(i * u));
    assert(dec_floor(i * u) == Ok::<int, MathError>(i)) by {
        vstd::arithmetic::div_mod::lemma_div_multiples_vanish(i, u);
        assert((i * u) / u == (u * i) / u);
    }
    assert(dec_from_scale(i, 0) == Ok::<int, MathError>(i * u));
    assert(dec_from_scale(ys[i] as int, decimals as nat) == Ok::<int, MathError>(
        ys[i] * crate::decimal::pow10((12 - decimals) as nat),
    )) by {
        crate::decimal::lemma_pow10_pos((12 - decimals) as nat);
        crate::decimal::lemma_pow10_mono((12 - decimals) as nat, 12);
        vstd::arithmetic::mul::lemma_mul_nonnegative(
            ys[i] as int,
            crate::decimal::pow10((12 - decimals) as nat),
        );
        vstd::arithmetic::mul::lemma_mul_upper_bound(
            ys[i] as int,
            u32::MAX as int,
            crate::decimal::pow10((12 - decimals) as nat),
            u,
        );
    }
}

/// Queries outside the curve's domain: a query whose rescaled value falls
/// below `x0` or above the last grid coordinate is rejected as out of
/// range, never clamped or wrapped.
pub proof fn lemma_out_of_range(ys: Seq<u32>, decimals: u8, x_step: u32, x0: u32, xu: int)
    requires
        1 <= ys.len() <= MAX_Y_CNT,
        x_step >= 1,
        decimals <= 9,
        x0 + x_step * (ys.len() - 1) <= u32::MAX,
        in_i128(xu * (crate::decimal::pow10(decimals as nat) * (DECIMAL_UNIT as int))),
        xu * crate::decimal::pow10(decimals as nat) < x0 * (DECIMAL_UNIT as int) || xu
            * crate::decimal::pow10(decimals as nat) > (x0 + x_step * (ys.len() - 1)) * (
        DECIMAL_UNIT as int),
    ensures
        spec_calc_y_with_params(ys, decimals, x_step, x0 * (DECIMAL_UNIT as int), xu) == Err::<
            int,
            CalcError,
        >(CalcError::OutOfRange),
{
    lemma_calc_reaches_range_check(ys, decimals, x_step, x0, xu);
    assert(x_step * (ys.len() - 1) >= 0) by {
        vstd::arithmetic::mul::lemma_mul_nonnegative(x_step as int, ys.len() - 1);
    }
}


proof fn lemma_trunc_div_nonneg(x: int, d: int)
    requires
        x >= 0,
        d >= 1,
    ensures
        trunc_div(x, d) == x / d,
{
    if x == 0 {
        vstd::arithmetic::div_mod::lemma_div_of0(d);
    }
}

/// Lifting a sample to `decimals` scale is exact and bounded.
proof fn lemma_sample_lift(v: u32, decimals: u8)
    requires
        decimals <= 12,
    ensures
        dec_from_scale(v as int, decimals as nat) == Ok::<int, MathError>(
            v * crate::decimal::pow10((12 - decimals) as nat),
        ),
        0 <= v * crate::decimal::pow10((12 - decimals) as nat) <= u32::MAX * (DECIMAL_UNIT as int),
{
    let u = DECIMAL_UNIT as int;
    lemma_pow10_unit();
    crate::decimal::lemma_pow10_pos((12 - decimals) as nat);
    crate::decimal::lemma_pow10_mono((12 - decimals) as nat, 12);
    vstd::arithmetic::mul::lemma_mul_nonnegative(
        v as int,
        crate::decimal::pow10((12 - decimals) as nat),
    );
    vstd::arithmetic::mul::lemma_mul_upper_bound(
        v as int,
        u32::MAX as int,
        crate::decimal::pow10((12 - decimals) as nat),
        u,
    );
}

/// Scaling a bounded sample difference by a sub-one fraction stays between
/// zero and the difference itself.
proof fn lemma_blend_product(diffy: int, q: int)
    requires
        -(u32::MAX * (DECIMAL_UNIT as int)) <= diffy <= u32::MAX * (DECIMAL_UNIT as int),
        0 <= q <= DECIMAL_UNIT as int,
    ensures
        in_i128(diffy * q),
        diffy >= 0 ==> 0 <= trunc_div(diffy * q, DECIMAL_UNIT as int) <= diffy,
        diffy < 0 ==> diffy <= trunc_div(diffy * q, DECIMAL_UNIT as int) <= 0,
{
    let u = DECIMAL_UNIT as int;
    if diffy >= 0 {
        vstd::arithmetic::mul::lemma_mul_nonnegative(diffy, q);
        assert(q * diffy <= u * diffy) by {
            vstd::arithmetic::mul::lemma_mul_inequality(q, u, diffy);
        }
        assert(diffy * q <= diffy * u);
        lemma_trunc_div_nonneg(diffy * q, u);
        assert((diffy * q) / u <= (diffy * u) / u) by {
            vstd::arithmetic::div_mod::lemma_div_is_ordered(diffy * q, diffy * u, u);
        }
        assert((diffy * u) / u == diffy) by {
            vstd::arithmetic::div_mod::lemma_div_multiples_vanish(diffy, u);
            assert(u * diffy == diffy * u);
        }
        vstd::arithmetic::div_mod::lemma_div_pos_is_pos(diffy * q, u);
    } else {
        let a = diffy * -1;
        vstd::arithmetic::mul::lemma_mul_nonnegative(a, q);
        assert(a * q == (diffy * q) * -1) by (nonlinear_arith)
            requires
                a == diffy * -1,
        ;
        assert(q * a <= u * a) by {
            vstd::arithmetic::mul::lemma_mul_inequality(q, u, a);
        }
        assert(a * q <= a * u);
        if diffy * q == 0 {
            assert(trunc_div(diffy * q, u) == 0);
        } else {
            assert(diffy * q < 0);
            assert(trunc_div(diffy * q, u) == ((a * q) / u) * -1);
            assert((a * q) / u <= (a * u) / u) by {
                vstd::arithmetic::div_mod::lemma_div_is_ordered(a * q, a * u, u);
            }
            assert((a * u) / u == a) by {
                vstd::arithmetic::div_mod::lemma_div_multiples_vanish(a, u);
                assert(u * a == a * u);
            }
            vstd::arithmetic::div_mod::lemma_div_pos_is_pos(a * q, u);
        }
    }
}

/// A strictly-between lookup returns the linear blend of its two
/// neighbouring samples: `y = pre_y + (post_y - pre_y) * n`, where `n` is
/// the query's fractional position on the segment, carried at the fixed
/// scale with truncation toward zero. The query's offset into the segment
/// must span at least one quantum of the index resolution (`x_step` scaled
/// units); a smaller offset truncates to the exact grid hit at `i`.
pub proof fn lemma_between_blend(
    ys: Seq<u32>,
    decimals: u8,
    x_step: u32,
    x0: u32,
    xu: int,
    i: int,
)
    requires
        2 <= ys.len() <= MAX_Y_CNT,
        x_step >= 1,
        decimals <= 9,
        x0 + x_step * (ys.len() - 1) <= u32::MAX,
        0 <= i,
        i + 1 < ys.len(),
        (x0 + x_step * i) * (DECIMAL_UNIT as int) + x_step <= xu * crate::decimal::pow10(
            decimals as nat,
        ),
        xu * crate::decimal::pow10(decimals as nat) < (x0 + x_step * (i + 1)) * (
        DECIMAL_UNIT as int),
    ensures
        ({
            let u = DECIMAL_UNIT as int;
            let xs = xu * crate::decimal::pow10(decimals as nat);
            let pre_x = (x0 + x_step * i) * u;
            let n = (xs - pre_x) / (x_step as int);
            let pre_y = ys[i] * crate::decimal::pow10((12 - decimals) as nat);
            let post_y = ys[i + 1] * crate::decimal::pow10((12 - decimals) as nat);
            spec_calc_y_with_params(ys, decimals, x_step, x0 * u, xu) == Ok::<int, CalcError>(
                pre_y + trunc_div((post_y - pre_y) * n, u),
            )
        }),
{
    let u = DECIMAL_UNIT as int;
    let len = ys.len() as int;
    let step = x_step as int;
    let g = x0 + x_step * i;
    let g1 = x0 + x_step * (i + 1);
    let xlast_raw = x0 + x_step * (len - 1);
    let pw = crate::decimal::pow10(decimals as nat);
    let xs = xu * pw;
    lemma_pow10_unit();
    assert(x_step * i >= 0) by {
        vstd::arithmetic::mul::lemma_mul_nonnegative(x_step as int, i);
    }
    assert(x_step * (i + 1) == x_step * i + x_step) by (nonlinear_arith);
    assert(x_step * (i + 1) <= x_step * (len - 1)) by {
        vstd::arithmetic::mul::lemma_mul_inequality(i + 1, len - 1, step);
        assert((i + 1) * step == x_step * (i + 1));
        assert((len - 1) * step == x_step * (len - 1));
    }
    assert(x0 <= g < g1 <= xlast_raw <= u32::MAX);
    assert(in_i128(xu * (pw * u))) by {
        assert(xu * (pw * u) == xs * u) by {
            vstd::arithmetic::mul::lemma_mul_is_associative(xu, pw, u);
        }
    }
    lemma_calc_reaches_range_check(ys, decimals, x_step, x0, xu);
    assert(x0 * u <= xs <= xlast_raw * u);
    // the interpolation stage: the grid index
    assert(dec_from_scale(step, 0) == Ok::<int, MathError>(step * u));
    let diff = xs - x0 * u;
    assert(dec_sub(xs, x0 * u) == Ok::<int, MathError>(diff));
    let dx = xs - g * u;
    assert(x_step <= dx < step * u);
    assert(diff == (x_step * i) * u + dx);
    let q = dx / step;
    assert(1 <= q) by {
        vstd::arithmetic::div_mod::lemma_div_is_ordered(step, dx, step);
        assert(step / step == 1) by {
            vstd::arithmetic::div_mod::lemma_div_by_self(step);
        }
    }
    assert(q < u) by {
        vstd::arithmetic::div_mod::lemma_multiply_divide_lt(dx, step, u);
    }
    let idxu = (i * u) + q;
    assert(trunc_div(diff * u, step * u) == idxu) by {
        assert(diff * u >= 0) by {
            vstd::arithmetic::mul::lemma_mul_nonnegative(diff, u);
        }
        lemma_trunc_div_nonneg(diff * u, step * u);
        assert((diff * u) / (step * u) == ((diff * u) / u) / step) by {
            vstd::arithmetic::div_mod::lemma_div_denominator(diff * u, u, step);
            assert(u * step == step * u);
        }
        assert((diff * u) / u == diff) by {
            vstd::arithmetic::div_mod::lemma_div_multiples_vanish(diff, u);
            assert(u * diff == diff * u);
        }
        vstd::arithmetic::div_mod::lemma_fundamental_div_mod(dx, step);
        let rr = dx % step;
        assert(0 <= rr < step) by {
            vstd::arithmetic::div_mod::lemma_mod_bound(dx, step);
        }
        assert(diff == (i * u + q) * step + rr) by (nonlinear_arith)
            requires
                diff == (x_step * i) * u + dx && dx == step * q + rr && step == x_step,
        ;
        vstd::arithmetic::div_mod::lemma_fundamental_div_mod_converse_div(
            diff,
            step,
            i * u + q,
            rr,
        );
    }
    assert(dec_div(diff, step * u) == Ok::<int, MathError>(idxu));
    // floor of the index
    assert(dec_floor(idxu) == Ok::<int, MathError>(i)) by {
        vstd::arithmetic::div_mod::lemma_fundamental_div_mod_converse_div(idxu, u, i, q);
    }
    assert(dec_from_scale(i, 0) == Ok::<int, MathError>(i * u));
    assert(idxu != i * u);
    // the blend branch
    assert(i * x_step == x_step * i) by {
        vstd::arithmetic::mul::lemma_mul_is_commutative(i, x_step as int);
    }
    assert((i + 1) * x_step == x_step * (i + 1)) by {
        vstd::arithmetic::mul::lemma_mul_is_commutative(i + 1, x_step as int);
    }
    assert(dec_from_scale(i * x_step, 0) == Ok::<int, MathError>((x_step * i) * u));
    assert(dec_add(x0 * u, (x_step * i) * u) == Ok::<int, MathError>(g * u));
    assert(dec_from_scale((i + 1) * x_step, 0) == Ok::<int, MathError>((x_step * (i + 1)) * u));
    assert(dec_add(x0 * u, (x_step * (i + 1)) * u) == Ok::<int, MathError>(g1 * u));
    lemma_sample_lift(ys[i], decimals);
    lemma_sample_lift(ys[i + 1], decimals);
    let pre_y = ys[i] * crate::decimal::pow10((12 - decimals) as nat);
    let post_y = ys[i + 1] * crate::decimal::pow10((12 - decimals) as nat);
    assert(dec_sub(g1 * u, g * u) == Ok::<int, MathError>(step * u));
    assert(dec_sub(xs, g * u) == Ok::<int, MathError>(dx));
    assert(dec_div(dx, step * u) == Ok::<int, MathError>(q)) by {
        assert(dx * u >= 0) by {
            vstd::arithmetic::mul::lemma_mul_nonnegative(dx, u);
        }
        lemma_trunc_div_nonneg(dx * u, step * u);
        assert((dx * u) / (step * u) == ((dx * u) / u) / step) by {
            vstd::arithmetic::div_mod::lemma_div_denominator(dx * u, u, step);
            assert(u * step == step * u);
        }
        assert((dx * u) / u == dx) by {
            vstd::arithmetic::div_mod::lemma_div_multiples_vanish(dx, u);
            assert(u * dx == dx * u);
        }
    }
    let diffy = post_y - pre_y;
    assert(dec_sub(post_y, pre_y) == Ok::<int, MathError>(diffy));
    lemma_blend_product(diffy, q);
    let m = trunc_div(diffy * q, u);
    assert(dec_mul(diffy, q) == Ok::<int, MathError>(m));
    assert(dec_add(m, pre_y) == Ok::<int, MathError>(m + pre_y));
}


/// Shared facts about a record whose geometry the validator accepts.
proof fn lemma_record_geometry(c: CurveView)
    requires
        crate::curve::params_valid(c.params()),
    ensures
        c.x_step >= 1,
        2 <= c.y_count,
        c.decimals <= 9,
        c.x0 + c.x_step * (c.y_count - 1) <= u32::MAX,
        dec_from_scale(c.x0 as int, 0) == Ok::<int, MathError>(c.x0 * (DECIMAL_UNIT as int)),
{
    crate::curve::lemma_validator_bounds(c.params());
    lemma_pow10_unit();
    assert(c.y_count != 1) by {
        vstd::arithmetic::mul::lemma_mul_basics(c.x_step as int);
    }
}

/// An exact grid hit against a whole record the validator accepted: the
/// lookup returns the stored sample at the record's scale.
pub proof fn lemma_record_grid_point_exact(c: CurveView, xu: int, i: int)
    requires
        crate::curve::params_valid(c.params()),
        c.wf(),
        c.y_count as int <= c.y.len(),
        0 <= i < c.y_count,
        xu * crate::decimal::pow10(c.decimals as nat) == (c.x0 + c.x_step * i) * (
        DECIMAL_UNIT as int),
    ensures
        spec_calc_y(c, xu) == Ok::<int, CalcError>(
            c.y[i] * crate::decimal::pow10((12 - c.decimals) as nat),
        ),
{
    lemma_record_geometry(c);
    let ys = c.y.take(c.y_count as int);
    assert(ys.len() == c.y_count as int);
    lemma_grid_point_exact(ys, c.decimals, c.x_step, c.x0, xu, i);
    assert(ys[i] == c.y[i]);
}

/// A strictly-between lookup against a whole record the validator accepted
/// returns the linear blend of the two neighbouring samples.
pub proof fn lemma_record_between_blend(c: CurveView, xu: int, i: int)
    requires
        crate::curve::params_valid(c.params()),
        c.wf(),
        c.y_count as int <= c.y.len(),
        0 <= i,
        i + 1 < c.y_count,
        (c.x0 + c.x_step * i) * (DECIMAL_UNIT as int) + c.x_step <= xu * crate::decimal::pow10(
            c.decimals as nat,
        ),
        xu * crate::decimal::pow10(c.decimals as nat) < (c.x0 + c.x_step * (i + 1)) * (
        DECIMAL_UNIT as int),
    ensures
        ({
            let u = DECIMAL_UNIT as int;
            let xs = xu * crate::decimal::pow10(c.decimals as nat);
            let pre_x = (c.x0 + c.x_step * i) * u;
            let n = (xs - pre_x) / (c.x_step as int);
            let pre_y = c.y[i] * crate::decimal::pow10((12 - c.decimals) as nat);
            let post_y = c.y[i + 1] * crate::decimal::pow10((12 - c.decimals) as nat);
            spec_calc_y(c, xu) == Ok::<int, CalcError>(
                pre_y + trunc_div((post_y - pre_y) * n, u),
            )
        }),
{
    lemma_record_geometry(c);
    let ys = c.y.take(c.y_count as int);
    assert(ys.len() == c.y_count as int);
    lemma_between_blend(ys, c.decimals, c.x_step, c.x0, xu, i);
    assert(ys[i] == c.y[i]);
    assert(ys[i + 1] == c.y[i + 1]);
}

/// A query outside the domain of a record the validator accepted is
/// rejected as out of range, never clamped or wrapped.
pub proof fn lemma_record_out_of_range(c: CurveView, xu: int)
    requires
        crate::curve::params_valid(c.params()),
        c.wf(),
        c.y_count as int <= c.y.len(),
        in_i128(xu * (crate::decimal::pow10(c.decimals as nat) * (DECIMAL_UNIT as int))),
        xu * crate::decimal::pow10(c.decimals as nat) < c.x0 * (DECIMAL_UNIT as int) || xu
            * crate::decimal::pow10(c.decimals as nat) > (c.x0 + c.x_step * (c.y_count - 1)) * (
        DECIMAL_UNIT as int),
    ensures
        spec_calc_y(c, xu) == Err::<int, CalcError>(CalcError::OutOfRange),
{
    lemma_record_geometry(c);
    let ys = c.y.take(c.y_count as int);
    assert(ys.len() == c.y_count as int);
    lemma_out_of_range(ys, c.decimals, c.x_step, c.x0, xu);
}

} // verus!
