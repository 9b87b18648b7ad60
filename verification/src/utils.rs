//! Angle helpers for the camera: degree conversion and the tangent of the
//! half field of view, as truncated alternating series over fixed-point
//! scalars.
use vstd::prelude::*;
use crate::fx::{fxv, fx_add, fx_sub, fx_mul, fx_div, fx_of_int, add_fx, sub_fx, mul_fx, div_fx,
    int_to_fx};

verus! {

/// The circle constant as a raw scalar.
pub const PI_FX: i64 = 205887;

/// The angle `d` degrees in radians: `d` times pi over one hundred eighty.
pub open spec fn spec_degrees_to_radians(d: int) -> int {
    fx_div(fx_mul(d, PI_FX as int), fx_of_int(180))
}

/// Convert degrees to radians.
pub fn degrees_to_radians(d: i64) -> (r: i64)
    requires
        fxv(d as int),
    ensures
        r == spec_degrees_to_radians(d as int),
        fxv(r as int),
{
    div_fx(mul_fx(d, PI_FX), int_to_fx(180))
}

/// The sine series truncated after the seventh power:
/// `x - x^3/6 + x^5/120 - x^7/5040`.
pub open spec fn spec_sin(x: int) -> int {
    let x2 = fx_mul(x, x);
    let x3 = fx_mul(x2, x);
    let x5 = fx_mul(x3, x2);
    let x7 = fx_mul(x5, x2);
    fx_sub(
        fx_add(fx_sub(x, fx_div(x3, fx_of_int(6))), fx_div(x5, fx_of_int(120))),
        fx_div(x7, fx_of_int(5040)),
    )
}

/// The cosine series truncated after the sixth power:
/// `1 - x^2/2 + x^4/24 - x^6/720`.
pub open spec fn spec_cos(x: int) -> int {
    let x2 = fx_mul(x, x);
    let x4 = fx_mul(x2, x2);
    let x6 = fx_mul(x4, x2);
    fx_sub(
        fx_add(fx_sub(fx_of_int(1), fx_div(x2, fx_of_int(2))), fx_div(x4, fx_of_int(24))),
        fx_div(x6, fx_of_int(720)),
    )
}

/// The tangent: the truncated sine over the truncated cosine.
pub open spec fn spec_tan(x: int) -> int {
    fx_div(spec_sin(x), spec_cos(x))
}

/// The truncated sine series on raw scalars, intended for angles inside
/// `[0, pi)`.
pub fn sin_fx(x: i64) -> (r: i64)
    requires
        fxv(x as int),
    ensures
        r == spec_sin(x as int),
        fxv(r as int),
{
    let x2 = mul_fx(x, x);
    let x3 = mul_fx(x2, x);
    let x5 = mul_fx(x3, x2);
    let x7 = mul_fx(x5, x2);
    sub_fx(
        add_fx(sub_fx(x, div_fx(x3, int_to_fx(6))), div_fx(x5, int_to_fx(120))),
        div_fx(x7, int_to_fx(5040)),
    )
}

/// The truncated cosine series on raw scalars, intended for angles inside
/// `[0, pi)`.
pub fn cos_fx(x: i64) -> (r: i64)
    requires
        fxv(x as int),
    ensures
        r == spec_cos(x as int),
        fxv(r as int),
{
    let x2 = mul_fx(x, x);
    let x4 = mul_fx(x2, x2);
    let x6 = mul_fx(x4, x2);
    sub_fx(
        add_fx(sub_fx(int_to_fx(1), div_fx(x2, int_to_fx(2))), div_fx(x4, int_to_fx(24))),
        div_fx(x6, int_to_fx(720)),
    )
}

/// The tangent on raw scalars, intended for angles inside `[0, pi/2)`.
pub fn tan_fx(x: i64) -> (r: i64)
    requires
        fxv(x as int),
    ensures
        r == spec_tan(x as int),
        fxv(r as int),
{
    div_fx(sin_fx(x), cos_fx(x))
}

} // verus!
