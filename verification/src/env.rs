//! The environment model: pure maps from a plane position to a
//! concentration, in three field shapes — a linear gradient along the
//! peak direction, one bell centered on the peak, and a mirrored pair
//! of bells.  The shape is picked once at configuration time by tag.

use crate::fixed::{
    clip, fadd, fdiv, fmul, fsqrt, fsub, fx_add, fx_div, fx_mul, fx_ok, fx_sqrt, fx_sub, tdiv, ONE,
};
use crate::model::{const_ok, Const};
use crate::params::ConfigError;
use crate::trig::{exp_neg, fx_exp_neg, lemma_tdiv_pos_bound};
use vstd::prelude::*;

verus! {

/// The concentration-field shape, picked once at configuration time.
#[derive(Clone, Copy, Debug, PartialEq, Eq, Structural)]
pub enum FieldMode {
    /// Linear gradient along the peak direction.
    Linear,
    /// One bell centered on the peak.
    SingleGauss,
    /// Two bells, mirrored about the peak's abscissa axis.
    DoubleGauss,
}

impl FieldMode {
    /// Decode the configuration tag; any tag beyond the three shapes
    /// is a configuration error, fatal at load time.
    pub fn from_tag(tag: u64) -> (r: Result<FieldMode, ConfigError>)
        ensures
            r == if tag == 0 {
                Ok::<FieldMode, ConfigError>(FieldMode::Linear)
            } else if tag == 1 {
                Ok::<FieldMode, ConfigError>(FieldMode::SingleGauss)
            } else if tag == 2 {
                Ok::<FieldMode, ConfigError>(FieldMode::DoubleGauss)
            } else {
                Err::<FieldMode, ConfigError>(ConfigError::FieldMode)
            },
    {
        if tag == 0 {
            Ok(FieldMode::Linear)
        } else if tag == 1 {
            Ok(FieldMode::SingleGauss)
        } else if tag == 2 {
            Ok(FieldMode::DoubleGauss)
        } else {
            Err(ConfigError::FieldMode)
        }
    }
}

/// A product of a value with itself is never negative, and the scaled
/// fixed-point square keeps that sign.
pub proof fn lemma_square_nonneg(a: i64)
    requires
        fx_ok(a),
    ensures
        0 <= fmul(a, a),
        fmul(a, a) == clip(tdiv(a * a, ONE as int)),
{
    assert(0 <= a * a) by (nonlinear_arith);
    assert((a * a) as int <= (crate::fixed::LIM as int * crate::fixed::LIM) * ONE)
        by (nonlinear_arith)
        requires
            -crate::fixed::LIM <= a <= crate::fixed::LIM,
    ;
    lemma_tdiv_pos_bound((a * a) as int, ONE as int, crate::fixed::LIM as int * crate::fixed::LIM);
}

/// The linear field: the gradient steepness times the projection of
/// the position onto the unit peak direction.
pub open spec fn linear_field(c: Const, x: i64, y: i64) -> int {
    let dot = fadd(fmul(x, c.x_peak) as i64, fmul(y, c.y_peak) as i64);
    let pk = fadd(fmul(c.x_peak, c.x_peak) as i64, fmul(c.y_peak, c.y_peak) as i64);
    let dist = fsqrt(pk as i64);
    fmul(c.alpha, fdiv(dot as i64, dist as i64) as i64)
}

/// The linear field at a position.
pub fn concentration(constant: &Const, x: i64, y: i64) -> (r: i64)
    requires
        const_ok(*constant),
        fx_ok(x),
        fx_ok(y),
    ensures
        r == linear_field(*constant, x, y),
        fx_ok(r),
{
    let dot = fx_add(fx_mul(x, constant.x_peak), fx_mul(y, constant.y_peak));
    proof {
        lemma_square_nonneg(constant.x_peak);
        lemma_square_nonneg(constant.y_peak);
    }
    let pk = fx_add(
        fx_mul(constant.x_peak, constant.x_peak),
        fx_mul(constant.y_peak, constant.y_peak),
    );
    let dist = fx_sqrt(pk);
    fx_mul(constant.alpha, fx_div(dot, dist))
}

/// One bell of height `c_0` and width `lambda`, centered on
/// `(px, py)`: the height scaled by the exponential of the squared
/// distance over twice the squared width.
pub open spec fn bell_field(c_0: i64, lambda: i64, px: i64, py: i64, x: i64, y: i64) -> int {
    let dx = fsub(x, px);
    let dy = fsub(y, py);
    let d2 = fadd(fmul(dx as i64, dx as i64) as i64, fmul(dy as i64, dy as i64) as i64);
    let l2 = fmul(lambda, lambda);
    let den = fadd(l2 as i64, l2 as i64);
    let ex = fdiv(d2 as i64, den as i64);
    fmul(c_0, exp_neg(ex as i64) as i64)
}

fn bell_at(c_0: i64, lambda: i64, px: i64, py: i64, x: i64, y: i64) -> (r: i64)
    requires
        fx_ok(c_0),
        fx_ok(lambda),
        fx_ok(px),
        fx_ok(py),
        fx_ok(x),
        fx_ok(y),
    ensures
        r == bell_field(c_0, lambda, px, py, x, y),
        fx_ok(r),
{
    let dx = fx_sub(x, px);
    let dy = fx_sub(y, py);
    proof {
        lemma_square_nonneg(dx);
        lemma_square_nonneg(dy);
        lemma_square_nonneg(lambda);
    }
    let d2 = fx_add(fx_mul(dx, dx), fx_mul(dy, dy));
    let l2 = fx_mul(lambda, lambda);
    let den = fx_add(l2, l2);
    let ex = fx_div(d2, den);
    proof {
        crate::fixed::lemma_fdiv_sign(d2, den);
    }
    let e = fx_exp_neg(ex);
    fx_mul(c_0, e)
}

/// The single-bell field, centered on the peak.
pub open spec fn gauss_field(c: Const, x: i64, y: i64) -> int {
    bell_field(c.c_0, c.lambda, c.x_peak, c.y_peak, x, y)
}

pub fn gauss_concentration(constant: &Const, x: i64, y: i64) -> (r: i64)
    requires
        const_ok(*constant),
        fx_ok(x),
        fx_ok(y),
    ensures
        r == gauss_field(*constant, x, y),
        fx_ok(r),
{
    bell_at(constant.c_0, constant.lambda, constant.x_peak, constant.y_peak, x, y)
}

/// The double-bell field: one bell on the peak and its mirror image
/// across the abscissa axis.
pub open spec fn two_gauss_field(c: Const, x: i64, y: i64) -> int {
    let up = bell_field(c.c_0, c.lambda, c.x_peak, c.y_peak, x, y);
    let down = bell_field(c.c_0, c.lambda, c.x_peak, (-c.y_peak) as i64, x, y);
    fadd(up as i64, down as i64)
}

pub fn two_gauss_concentration(constant: &Const, x: i64, y: i64) -> (r: i64)
    requires
        const_ok(*constant),
        fx_ok(x),
        fx_ok(y),
    ensures
        r == two_gauss_field(*constant, x, y),
        fx_ok(r),
{
    let up = bell_at(constant.c_0, constant.lambda, constant.x_peak, constant.y_peak, x, y);
    let down = bell_at(constant.c_0, constant.lambda, constant.x_peak, -constant.y_peak, x, y);
    fx_add(up, down)
}

/// The concentration under the configured field shape.
pub open spec fn field_at(mode: FieldMode, c: Const, x: i64, y: i64) -> int {
    match mode {
        FieldMode::Linear => linear_field(c, x, y),
        FieldMode::SingleGauss => gauss_field(c, x, y),
        FieldMode::DoubleGauss => two_gauss_field(c, x, y),
    }
}

pub fn concentration_at(mode: FieldMode, constant: &Const, x: i64, y: i64) -> (r: i64)
    requires
        const_ok(*constant),
        fx_ok(x),
        fx_ok(y),
    ensures
        r == field_at(mode, *constant, x, y),
        fx_ok(r),
{
    match mode {
        FieldMode::Linear => concentration(constant, x, y),
        FieldMode::SingleGauss => gauss_concentration(constant, x, y),
        FieldMode::DoubleGauss => two_gauss_concentration(constant, x, y),
    }
}

/// One bell is symmetric under reflecting both the position's ordinate
/// and the bell's own ordinate.
proof fn lemma_bell_mirror(c_0: i64, lambda: i64, px: i64, py: i64, x: i64, y: i64)
    requires
        fx_ok(py),
        fx_ok(y),
    ensures
        bell_field(c_0, lambda, px, py, x, y) == bell_field(
            c_0,
            lambda,
            px,
            (-py) as i64,
            x,
            (-y) as i64,
        ),
{
    let dy = fsub(y, py) as i64;
    let dy2 = fsub((-y) as i64, (-py) as i64) as i64;
    assert(dy2 == -dy);
    assert(dy * dy == dy2 * dy2) by (nonlinear_arith)
        requires
            dy2 == -dy,
    ;
}

/// The single-bell field with the peak on the abscissa axis is
/// symmetric under reflection about that axis.
pub proof fn lemma_gauss_reflect(c: Const, x: i64, y: i64)
    requires
        const_ok(c),
        fx_ok(x),
        fx_ok(y),
        c.y_peak == 0,
    ensures
        gauss_field(c, x, y) == gauss_field(c, x, (-y) as i64),
{
    lemma_bell_mirror(c.c_0, c.lambda, c.x_peak, 0, x, y);
}

/// The double-bell field is symmetric under reflection about the
/// abscissa axis for every configuration: the two bells trade places.
pub proof fn lemma_two_gauss_reflect(c: Const, x: i64, y: i64)
    requires
        const_ok(c),
        fx_ok(x),
        fx_ok(y),
    ensures
        two_gauss_field(c, x, y) == two_gauss_field(c, x, (-y) as i64),
{
    lemma_bell_mirror(c.c_0, c.lambda, c.x_peak, c.y_peak, x, y);
    lemma_bell_mirror(c.c_0, c.lambda, c.x_peak, (-c.y_peak) as i64, x, y);
}

/// The linear field with the peak on the abscissa axis is symmetric
/// under reflection about that axis as well.
pub proof fn lemma_linear_reflect(c: Const, x: i64, y: i64)
    requires
        const_ok(c),
        fx_ok(x),
        fx_ok(y),
        c.y_peak == 0,
    ensures
        linear_field(c, x, y) == linear_field(c, x, (-y) as i64),
{
    assert(fmul(y, 0) == 0);
    assert(fmul((-y) as i64, 0) == 0);
}

} // verus!
