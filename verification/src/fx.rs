//! Fixed-point scalar arithmetic.
//!
//! A scalar is an `i64` holding a real number scaled by `SCALE`: the raw
//! value `v` stands for `v / SCALE`. All operations saturate at `FX_MAX`
//! instead of wrapping, so every operation is total and every result stays
//! inside the representable range.
use vstd::prelude::*;
use vstd::arithmetic::div_mod::{lemma_fundamental_div_mod, lemma_mod_bound, lemma_div_pos_is_pos};

verus! {

/// Scale factor of the fixed-point scalars: one world unit is `SCALE` raw
/// units.
pub const SCALE: i64 = 65536;

/// Half of `SCALE`, the raw form of one half.
pub const HALF_SCALE: i64 = 32768;

/// Largest raw magnitude a scalar may take; arithmetic saturates here, so
/// this value also stands in for an infinite magnitude.
pub const FX_MAX: i64 = 0x4000_0000_0000;

/// Whether `x` lies in the representable scalar range.
pub open spec fn fxv(x: int) -> bool {
    -FX_MAX <= x <= FX_MAX
}

/// Clamp an unbounded integer into the representable scalar range.
pub open spec fn sat(x: int) -> int {
    if x > FX_MAX {
        FX_MAX as int
    } else if x < -FX_MAX {
        -(FX_MAX as int)
    } else {
        x
    }
}

/// Quotient of `a` by `b`, rounded toward zero, as Rust's integer division
/// rounds. Unspecified when `b == 0`.
pub open spec fn tdiv(a: int, b: int) -> int {
    let m = if a >= 0 { a } else { -a };
    let n = if b >= 0 { b } else { -b };
    let q = m / n;
    if (a >= 0) == (b >= 0) {
        q
    } else {
        -q
    }
}

/// Saturating sum of two scalars.
pub open spec fn fx_add(a: int, b: int) -> int {
    sat(a + b)
}

/// Saturating difference of two scalars.
pub open spec fn fx_sub(a: int, b: int) -> int {
    sat(a - b)
}

/// Saturating product of two scalars: the exact product rescaled by `SCALE`,
/// rounded toward zero.
pub open spec fn fx_mul(a: int, b: int) -> int {
    sat(tdiv(a * b, SCALE as int))
}

/// Saturating quotient of two scalars, rounded toward zero. A zero divisor
/// yields the saturated value of the dividend's sign, standing in for the
/// infinite quotient.
pub open spec fn fx_div(a: int, b: int) -> int {
    if b == 0 {
        if a > 0 {
            FX_MAX as int
        } else if a < 0 {
            -(FX_MAX as int)
        } else {
            0
        }
    } else {
        sat(tdiv(a * SCALE, b))
    }
}

/// The whole number `x` as a scalar.
pub open spec fn fx_of_int(x: int) -> int {
    sat(x * SCALE)
}

/// The magnitude of a scalar.
pub open spec fn fx_abs(a: int) -> int {
    if a >= 0 {
        a
    } else {
        -a
    }
}

/// The square-root floor of `x`: the greatest `r` with `r * r <= x`.
pub open spec fn sqf(x: int) -> int {
    choose|r: int| 0 <= r && #[trigger] (r * r) <= x < (r + 1) * (r + 1)
}

/// Saturating fixed-point square root of a scalar: the raw result again
/// stands for a real number scaled by `SCALE`. Negative inputs yield zero.
pub open spec fn fx_sqrt(a: int) -> int {
    if a <= 0 {
        0
    } else {
        sat(sqf(a * SCALE))
    }
}

/// A square-root floor exists for every nonnegative integer.
pub proof fn lemma_sqf_exists(x: int)
    requires
        x >= 0,
    ensures
        0 <= sqf(x) && sqf(x) * sqf(x) <= x < (sqf(x) + 1) * (sqf(x) + 1),
    decreases x,
{
    if x == 0 {
        let w: int = 0;
        assert(0 <= w && w * w <= x < (w + 1) * (w + 1));
        assert(sqf(x) * sqf(x) <= x < (sqf(x) + 1) * (sqf(x) + 1)) by {
            assert(exists|r: int| 0 <= r && #[trigger] (r * r) <= x < (r + 1) * (r + 1));
        };
    } else {
        lemma_sqf_exists(x - 1);
        let r = sqf(x - 1);
        if (r + 1) * (r + 1) <= x {
            assert(x == (r + 1) * (r + 1));
            assert((r + 2) * (r + 2) > x) by (nonlinear_arith)
                requires
                    x == (r + 1) * (r + 1),
                    r >= 0,
            ;
            assert(0 <= r + 1 && (r + 1) * (r + 1) <= x < (r + 2) * (r + 2));
        } else {
            assert(0 <= r && r * r <= x < (r + 1) * (r + 1));
        }
    }
}

/// The square-root floor is the only value bracketing `x` between
/// consecutive squares.
pub proof fn lemma_sqf_unique(x: int, r: int)
    requires
        0 <= r,
        r * r <= x,
        x < (r + 1) * (r + 1),
    ensures
        sqf(x) == r,
{
    lemma_sqf_exists(x);
    let s = sqf(x);
    if s < r {
        assert((s + 1) * (s + 1) <= r * r) by (nonlinear_arith)
            requires
                0 <= s,
                s < r,
        ;
    }
    if s > r {
        assert((r + 1) * (r + 1) <= s * s) by (nonlinear_arith)
            requires
                0 <= r,
                r < s,
        ;
    }
}

/// The truncating quotient stays within one divisor of the dividend and
/// keeps its sign.
pub proof fn lemma_tdiv_bounds(x: int, d: int)
    requires
        d > 0,
    ensures
        -d < tdiv(x, d) * d - x < d,
        x >= 0 ==> 0 <= tdiv(x, d) * d <= x,
        x <= 0 ==> x <= tdiv(x, d) * d <= 0,
{
    if x >= 0 {
        lemma_fundamental_div_mod(x, d);
        lemma_mod_bound(x, d);
        lemma_div_pos_is_pos(x, d);
        assert(tdiv(x, d) == x / d);
        let q = x / d;
        assert(q * d == d * q) by (nonlinear_arith);
        assert(tdiv(x, d) * d == d * q);
    } else {
        let m = -x;
        lemma_fundamental_div_mod(m, d);
        lemma_mod_bound(m, d);
        lemma_div_pos_is_pos(m, d);
        assert(tdiv(x, d) == -(m / d));
        let q = m / d;
        assert((-q) * d == -(d * q)) by (nonlinear_arith);
        assert(tdiv(x, d) * d == -(d * q));
    }
}

/// The truncating quotient grows with its dividend.
pub proof fn lemma_tdiv_monotone(x: int, y: int, d: int)
    requires
        d > 0,
        x <= y,
    ensures
        tdiv(x, d) <= tdiv(y, d),
{
    if x >= 0 {
        vstd::arithmetic::div_mod::lemma_div_is_ordered(x, y, d);
    } else if y < 0 {
        vstd::arithmetic::div_mod::lemma_div_is_ordered(-y, -x, d);
    } else {
        lemma_tdiv_bounds(x, d);
        lemma_tdiv_bounds(y, d);
        let qx = tdiv(x, d);
        let qy = tdiv(y, d);
        assert(qx <= 0) by (nonlinear_arith)
            requires
                qx * d <= 0,
                d > 0,
        ;
        assert(qy >= 0) by (nonlinear_arith)
            requires
                qy * d >= 0,
                d > 0,
        ;
    }
}

/// Saturation does not move a value already in range; the product of two
/// scalars keeps its sign through the fixed-point product.
pub proof fn lemma_fx_mul_sign(a: int, b: int)
    ensures
        a * b >= 0 ==> fx_mul(a, b) >= 0,
        a * b <= 0 ==> fx_mul(a, b) <= 0,
{
    lemma_tdiv_bounds(a * b, SCALE as int);
    let q = tdiv(a * b, SCALE as int);
    if a * b >= 0 {
        assert(q * SCALE >= 0);
        assert(q >= 0) by (nonlinear_arith)
            requires
                q * (SCALE as int) >= 0,
        ;
    } else {
        assert(q * SCALE <= 0);
        assert(q <= 0) by (nonlinear_arith)
            requires
                q * (SCALE as int) <= 0,
        ;
    }
}

/// Without saturation, the fixed-point product lies within one unit of the
/// exact rescaled product, on the side of zero.
pub proof fn lemma_fx_mul_err(a: int, b: int)
    requires
        -FX_MAX * SCALE <= a * b <= FX_MAX * SCALE,
    ensures
        -SCALE < fx_mul(a, b) * SCALE - a * b < SCALE,
        a * b >= 0 ==> 0 <= fx_mul(a, b) * SCALE <= a * b,
        a * b <= 0 ==> a * b <= fx_mul(a, b) * SCALE <= 0,
{
    lemma_tdiv_bounds(a * b, SCALE as int);
    let q = tdiv(a * b, SCALE as int);
    assert(q <= FX_MAX && -FX_MAX <= q) by (nonlinear_arith)
        requires
            -(FX_MAX as int) * SCALE <= a * b <= (FX_MAX as int) * SCALE,
            -SCALE < q * SCALE - a * b < SCALE,
            -(FX_MAX as int) * SCALE - SCALE < q * (SCALE as int) < (FX_MAX as int) * SCALE
                + SCALE,
    ;
    assert(fx_mul(a, b) == q);
}

/// The square of a scalar is nonnegative through the fixed-point product.
pub proof fn lemma_fx_square_nonneg(a: int)
    ensures
        fx_mul(a, a) >= 0,
{
    assert(a * a >= 0) by (nonlinear_arith);
    lemma_fx_mul_sign(a, a);
}

/// Saturating addition on raw scalars.
pub fn add_fx(a: i64, b: i64) -> (r: i64)
    requires
        fxv(a as int),
        fxv(b as int),
    ensures
        r == fx_add(a as int, b as int),
        fxv(r as int),
{
    let s: i64 = a + b;
    if s > FX_MAX {
        FX_MAX
    } else if s < -FX_MAX {
        -FX_MAX
    } else {
        s
    }
}

/// Saturating subtraction on raw scalars.
pub fn sub_fx(a: i64, b: i64) -> (r: i64)
    requires
        fxv(a as int),
        fxv(b as int),
    ensures
        r == fx_sub(a as int, b as int),
        fxv(r as int),
{
    let s: i64 = a - b;
    if s > FX_MAX {
        FX_MAX
    } else if s < -FX_MAX {
        -FX_MAX
    } else {
        s
    }
}

/// Negation on raw scalars.
pub fn neg_fx(a: i64) -> (r: i64)
    requires
        fxv(a as int),
    ensures
        r == -a,
        fxv(r as int),
{
    -a
}

/// Truncating division of a nonnegative `u128` magnitude, saturated into the
/// scalar range and given the sign `neg`.
fn signed_sat_of_mag(m: u128, neg: bool) -> (r: i64)
    ensures
        r == (if neg {
            sat(-(m as int))
        } else {
            sat(m as int)
        }),
        fxv(r as int),
{
    let qc: u128 = if m > (FX_MAX as u128) {
        FX_MAX as u128
    } else {
        m
    };
    if neg {
        -(qc as i64)
    } else {
        qc as i64
    }
}

/// Saturating multiplication on raw scalars.
pub fn mul_fx(a: i64, b: i64) -> (r: i64)
    requires
        fxv(a as int),
        fxv(b as int),
    ensures
        r == fx_mul(a as int, b as int),
        fxv(r as int),
{
    proof {
        assert((a as int) * (b as int) <= FX_MAX as int * FX_MAX as int
            && -(FX_MAX as int * FX_MAX as int) <= (a as int) * (b as int)) by (nonlinear_arith)
            requires
                fxv(a as int),
                fxv(b as int),
        ;
    }
    let p: i128 = (a as i128) * (b as i128);
    let neg: bool = p < 0;
    let m: u128 = if neg {
        (-p) as u128
    } else {
        p as u128
    };
    let q: u128 = m / (SCALE as u128);
    proof {
        if p >= 0 {
            assert(q == tdiv((a as int) * (b as int), SCALE as int));
        } else {
            assert(q == (-((a as int) * (b as int))) / (SCALE as int));
            assert(q == -tdiv((a as int) * (b as int), SCALE as int));
        }
    }
    signed_sat_of_mag(q, neg)
}

/// Saturating division on raw scalars; a zero divisor saturates by the
/// dividend's sign.
pub fn div_fx(a: i64, b: i64) -> (r: i64)
    requires
        fxv(a as int),
        fxv(b as int),
    ensures
        r == fx_div(a as int, b as int),
        fxv(r as int),
{
    if b == 0 {
        if a > 0 {
            FX_MAX
        } else if a < 0 {
            -FX_MAX
        } else {
            0
        }
    } else {
        proof {
            assert((a as int) * (SCALE as int) <= FX_MAX as int * SCALE as int
                && -(FX_MAX as int * SCALE as int) <= (a as int) * (SCALE as int))
                by (nonlinear_arith)
                requires
                    fxv(a as int),
            ;
        }
        let n: i128 = (a as i128) * (SCALE as i128);
        let neg: bool = (a < 0) != (b < 0) && a != 0;
        let nm: u128 = if n < 0 {
            (-n) as u128
        } else {
            n as u128
        };
        let bm: u128 = if b < 0 {
            ((-(b as i128)) as u128)
        } else {
            b as u128
        };
        let q: u128 = nm / bm;
        proof {
            let aa = a as int;
            let bb = b as int;
            let mm = if aa * SCALE >= 0 { aa * (SCALE as int) } else { -(aa * SCALE) };
            let nn = if bb >= 0 { bb } else { -bb };
            assert(nm == mm);
            assert(bm == nn);
            if neg {
                assert(!((aa * SCALE >= 0) == (bb >= 0)));
                assert(q == -tdiv(aa * SCALE, bb));
            } else {
                if a == 0 {
                    assert(q == 0) by {
                        assert(mm == 0);
                        assert(mm / nn == 0);
                    };
                    assert(tdiv(aa * SCALE, bb) == 0);
                } else {
                    assert((aa * SCALE >= 0) == (bb >= 0));
                    assert(q == tdiv(aa * SCALE, bb));
                }
            }
        }
        signed_sat_of_mag(q, neg)
    }
}

/// The whole number `x` as a raw scalar.
pub fn int_to_fx(x: i64) -> (r: i64)
    requires
        -0x4000_0000 <= x <= 0x4000_0000,
    ensures
        r == fx_of_int(x as int),
        fxv(r as int),
{
    x * SCALE
}

/// Square-root floor of a machine word, by bisection.
pub fn isqrt(x: u64) -> (r: u64)
    ensures
        r == sqf(x as int),
        r * r <= x,
{
    let mut lo: u64 = 0;
    let mut hi: u64 = 0x1_0000_0000;
    while lo + 1 < hi
        invariant
            lo < hi <= 0x1_0000_0000,
            (lo as int) * (lo as int) <= x as int,
            (x as int) < (hi as int) * (hi as int),
        decreases hi - lo,
    {
        let mid: u64 = lo + (hi - lo) / 2;
        proof {
            assert((mid as int) * (mid as int) <= 0x1_0000_0000_0000_0000int) by (nonlinear_arith)
                requires
                    0 <= mid as int <= 0x1_0000_0000int,
            ;
        }
        if (mid as u128) * (mid as u128) <= (x as u128) {
            lo = mid;
        } else {
            hi = mid;
        }
    }
    proof {
        lemma_sqf_unique(x as int, lo as int);
    }
    lo
}

/// Magnitude of a raw scalar.
pub fn abs_fx(a: i64) -> (r: i64)
    requires
        fxv(a as int),
    ensures
        r == fx_abs(a as int),
        fxv(r as int),
        r >= 0,
{
    if a >= 0 {
        a
    } else {
        -a
    }
}

/// Saturating fixed-point square root on raw scalars.
pub fn sqrt_fx(a: i64) -> (r: i64)
    requires
        fxv(a as int),
    ensures
        r == fx_sqrt(a as int),
        fxv(r as int),
        r >= 0,
{
    if a <= 0 {
        0
    } else {
        proof {
            assert((a as int) * (SCALE as int) <= 0x4000_0000_0000_0000) by (nonlinear_arith)
                requires
                    0 < a <= FX_MAX,
            ;
            lemma_sqf_exists(a as int * SCALE as int);
            let s = sqf(a as int * SCALE as int);
            assert(s * s <= 0x4000_0000_0000_0000);
            assert(s <= 0x8000_0000) by (nonlinear_arith)
                requires
                    s >= 0,
                    s * s <= 0x4000_0000_0000_0000,
            ;
        }
        let scaled: u64 = (a as u64) * (SCALE as u64);
        let r: u64 = isqrt(scaled);
        r as i64
    }
}

} // verus!
