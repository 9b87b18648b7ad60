//! Colors are vectors of three fixed-point channels in `[0, 1]`, with the
//! gamma curve and the 8-bit quantization applied to finished pixels.
use vstd::prelude::*;
use crate::fx::{SCALE, HALF_SCALE, fxv, fx_sqrt, fx_mul, fx_div, fx_of_int, sqrt_fx, mul_fx,
    div_fx, int_to_fx, tdiv};
use crate::vec3::{Vec3, vec_ok};

verus! {

/// A color: red, green and blue channels as fixed-point scalars.
pub type Color = Vec3;

impl Vec3 {
    /// A color from its three raw channels.
    pub fn new_const(r: i64, g: i64, b: i64) -> (c: Color)
        requires
            fxv(r as int),
            fxv(g as int),
            fxv(b as int),
        ensures
            c == (Vec3 { x: r, y: g, z: b }),
            vec_ok(c),
    {
        Vec3 { x: r, y: g, z: b }
    }

    /// The channels as an array.
    pub fn to_array(&self) -> (r: [i64; 3])
        ensures
            r[0] == self.x && r[1] == self.y && r[2] == self.z,
    {
        [self.x, self.y, self.z]
    }

    /// A color from the first three entries of a slice of raw channels.
    pub fn from_slice(slice: &[i64]) -> (c: Color)
        requires
            slice@.len() >= 3,
        ensures
            c == (Vec3 { x: slice@[0], y: slice@[1], z: slice@[2] }),
    {
        Vec3 { x: slice[0], y: slice[1], z: slice[2] }
    }

    /// Pure black.
    pub fn black() -> (c: Color)
        ensures
            c == (Vec3 { x: 0, y: 0, z: 0 }),
            vec_ok(c),
    {
        Vec3::new_const(0, 0, 0)
    }

    /// Pure white.
    pub fn white() -> (c: Color)
        ensures
            c == (Vec3 { x: SCALE, y: SCALE, z: SCALE }),
            vec_ok(c),
    {
        Vec3::new_const(SCALE, SCALE, SCALE)
    }
}

/// Map a linear channel to gamma space with the square-root curve.
pub fn linear_to_gamma(x: i64) -> (r: i64)
    requires
        fxv(x as int),
    ensures
        r == fx_sqrt(x as int),
        fxv(r as int),
        r >= 0,
{
    sqrt_fx(x)
}

/// The 8-bit value of one accumulated channel `c`: divided by the sample
/// count, gamma-corrected, scaled by 256, rounded to the nearest whole
/// number, and clamped into a byte.
pub open spec fn spec_channel_byte(c: int, n_samples: int) -> int {
    let scaled = fx_mul(c, fx_div(fx_of_int(1), fx_of_int(n_samples)));
    let gamma = fx_sqrt(scaled);
    let intensity = fx_mul(fx_of_int(256), gamma);
    let rounded = tdiv(intensity + HALF_SCALE, SCALE as int);
    if rounded >= 255 {
        255
    } else {
        rounded
    }
}

/// Quantize one accumulated channel into its 8-bit output value.
pub fn channel_byte(c: i64, n_samples: i64) -> (r: u8)
    requires
        fxv(c as int),
        1 <= n_samples <= 0x4000_0000,
    ensures
        r == spec_channel_byte(c as int, n_samples as int),
{
    let scale: i64 = div_fx(int_to_fx(1), int_to_fx(n_samples));
    let gamma: i64 = linear_to_gamma(mul_fx(c, scale));
    let intensity: i64 = mul_fx(int_to_fx(256), gamma);
    proof {
        let g = gamma as int;
        assert(fx_of_int(256) == 16777216);
        assert(16777216 * g >= 0) by (nonlinear_arith)
            requires
                g >= 0,
        ;
    }
    let rounded: i64 = (((intensity + HALF_SCALE) as u64) / (SCALE as u64)) as i64;
    if rounded >= 255 {
        255
    } else {
        rounded as u8
    }
}

/// The three output bytes of an accumulated pixel.
pub fn pixel_bytes(pixel: &Color, n_samples: i64) -> (r: (u8, u8, u8))
    requires
        vec_ok(*pixel),
        1 <= n_samples <= 0x4000_0000,
    ensures
        r.0 == spec_channel_byte(pixel.x as int, n_samples as int),
        r.1 == spec_channel_byte(pixel.y as int, n_samples as int),
        r.2 == spec_channel_byte(pixel.z as int, n_samples as int),
{
    (
        channel_byte(pixel.x, n_samples),
        channel_byte(pixel.y, n_samples),
        channel_byte(pixel.z, n_samples),
    )
}

} // verus!
