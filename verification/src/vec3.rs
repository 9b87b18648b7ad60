//! Three-component vectors over fixed-point scalars, with the sampling
//! helpers the tracer draws scatter directions from.
use vstd::prelude::*;
use vstd::arithmetic::div_mod::lemma_div_multiples_vanish;
use crate::fx::{SCALE, fxv, fx_abs, fx_add, fx_sub, fx_mul, fx_div, fx_sqrt, fx_of_int, add_fx,
    sub_fx, neg_fx, mul_fx, div_fx, sqrt_fx, tdiv, lemma_fx_square_nonneg, lemma_fx_mul_err,
    lemma_tdiv_bounds};
use crate::rng::{RandomSource, rng_next, rng_in_range};

verus! {

/// A vector of three raw fixed-point scalars; also used for points and for
/// colors.
#[derive(Clone, Copy, PartialEq, Eq, Structural, Debug)]
pub struct Vec3 {
    pub x: i64,
    pub y: i64,
    pub z: i64,
}

/// A location in space.
pub type Point3 = Vec3;

/// Whether all three components lie in the representable scalar range.
pub open spec fn vec_ok(v: Vec3) -> bool {
    fxv(v.x as int) && fxv(v.y as int) && fxv(v.z as int)
}

/// The vector with all components zero.
pub open spec fn spec_zero() -> Vec3 {
    Vec3 { x: 0, y: 0, z: 0 }
}

/// Componentwise saturating sum.
pub open spec fn spec_add(a: Vec3, b: Vec3) -> Vec3 {
    Vec3 {
        x: fx_add(a.x as int, b.x as int) as i64,
        y: fx_add(a.y as int, b.y as int) as i64,
        z: fx_add(a.z as int, b.z as int) as i64,
    }
}

/// Componentwise saturating difference.
pub open spec fn spec_sub(a: Vec3, b: Vec3) -> Vec3 {
    Vec3 {
        x: fx_sub(a.x as int, b.x as int) as i64,
        y: fx_sub(a.y as int, b.y as int) as i64,
        z: fx_sub(a.z as int, b.z as int) as i64,
    }
}

/// Componentwise negation.
pub open spec fn spec_neg(a: Vec3) -> Vec3 {
    Vec3 { x: (-a.x) as i64, y: (-a.y) as i64, z: (-a.z) as i64 }
}

/// Componentwise saturating product, as used for color attenuation.
pub open spec fn spec_mul(a: Vec3, b: Vec3) -> Vec3 {
    Vec3 {
        x: fx_mul(a.x as int, b.x as int) as i64,
        y: fx_mul(a.y as int, b.y as int) as i64,
        z: fx_mul(a.z as int, b.z as int) as i64,
    }
}

/// The vector scaled by the scalar `k`.
pub open spec fn spec_scale(a: Vec3, k: int) -> Vec3 {
    Vec3 {
        x: fx_mul(a.x as int, k) as i64,
        y: fx_mul(a.y as int, k) as i64,
        z: fx_mul(a.z as int, k) as i64,
    }
}

/// The vector divided by the scalar `k`.
pub open spec fn spec_div(a: Vec3, k: int) -> Vec3 {
    Vec3 {
        x: fx_div(a.x as int, k) as i64,
        y: fx_div(a.y as int, k) as i64,
        z: fx_div(a.z as int, k) as i64,
    }
}

/// The saturating fixed-point dot product.
pub open spec fn spec_dot(a: Vec3, b: Vec3) -> int {
    fx_add(
        fx_add(fx_mul(a.x as int, b.x as int), fx_mul(a.y as int, b.y as int)),
        fx_mul(a.z as int, b.z as int),
    )
}

/// The squared length, a saturating fixed-point scalar.
pub open spec fn spec_len_sq(a: Vec3) -> int {
    spec_dot(a, a)
}

/// The length: the fixed-point square root of the squared length.
pub open spec fn spec_len(a: Vec3) -> int {
    fx_sqrt(spec_len_sq(a))
}

/// The cross product.
pub open spec fn spec_cross(a: Vec3, b: Vec3) -> Vec3 {
    Vec3 {
        x: fx_sub(fx_mul(a.y as int, b.z as int), fx_mul(a.z as int, b.y as int)) as i64,
        y: fx_sub(fx_mul(a.z as int, b.x as int), fx_mul(a.x as int, b.z as int)) as i64,
        z: fx_sub(fx_mul(a.x as int, b.y as int), fx_mul(a.y as int, b.x as int)) as i64,
    }
}

/// The vector rescaled to unit length: each component divided by the
/// length. The zero vector stays zero.
pub open spec fn spec_normalize(a: Vec3) -> Vec3 {
    spec_div(a, spec_len(a))
}

/// The mirror image of `v` about the normal `n`: `v - 2 (v . n) n`.
pub open spec fn spec_reflect(v: Vec3, n: Vec3) -> Vec3 {
    spec_sub(v, spec_scale(n, fx_add(spec_dot(v, n), spec_dot(v, n))))
}

/// Whether `a` and `b` agree within the squared tolerance `tol * tol`.
pub open spec fn spec_close_to(a: Vec3, b: Vec3, tol: int) -> bool {
    spec_len_sq(spec_sub(a, b)) < fx_mul(tol, tol)
}

/// The vector drawn from state `s` with components uniform in `[lo, hi)`,
/// paired with the state that follows the three draws.
pub open spec fn spec_random_in_bounds(s: u64, lo: int, hi: int) -> (Vec3, u64) {
    let s1 = rng_next(s);
    let s2 = rng_next(s1);
    let s3 = rng_next(s2);
    (
        Vec3 {
            x: rng_in_range(s, lo, hi) as i64,
            y: rng_in_range(s1, lo, hi) as i64,
            z: rng_in_range(s2, lo, hi) as i64,
        },
        s3,
    )
}

/// How many candidates the rejection sampler examines before it gives up
/// and hands back the zero vector.
pub const BALL_TRIES: u64 = 64;

/// The vector drawn from state `s` by rejection from the cube until it lies
/// strictly inside the unit ball, giving up on the zero vector after `fuel`
/// tries.
pub open spec fn spec_unit_ball(s: u64, fuel: nat) -> (Vec3, u64)
    decreases fuel,
{
    if fuel == 0 {
        (spec_zero(), s)
    } else {
        let (c, s2) = spec_random_in_bounds(s, -SCALE as int, SCALE as int);
        if spec_len_sq(c) < SCALE {
            (c, s2)
        } else {
            spec_unit_ball(s2, (fuel - 1) as nat)
        }
    }
}

/// The vector drawn from state `s` by rejection in the `z == 0` plane until
/// it lies strictly inside the unit disk, giving up on the zero vector
/// after `fuel` tries.
pub open spec fn spec_unit_disk(s: u64, fuel: nat) -> (Vec3, u64)
    decreases fuel,
{
    if fuel == 0 {
        (spec_zero(), s)
    } else {
        let s1 = rng_next(s);
        let c = Vec3 {
            x: rng_in_range(s, -SCALE as int, SCALE as int) as i64,
            y: rng_in_range(s1, -SCALE as int, SCALE as int) as i64,
            z: 0,
        };
        let s2 = rng_next(s1);
        if spec_len_sq(c) < SCALE {
            (c, s2)
        } else {
            spec_unit_disk(s2, (fuel - 1) as nat)
        }
    }
}

/// The unit-ball draw, normalized.
pub open spec fn spec_unit_vector(s: u64) -> (Vec3, u64) {
    let (c, s2) = spec_unit_ball(s, BALL_TRIES as nat);
    (spec_normalize(c), s2)
}

/// The unit-ball draw, flipped into the hemisphere around `normal`.
pub open spec fn spec_in_hemisphere(s: u64, normal: Vec3) -> (Vec3, u64) {
    let (c, s2) = spec_unit_ball(s, BALL_TRIES as nat);
    if spec_dot(c, normal) > 0 {
        (c, s2)
    } else {
        (spec_neg(c), s2)
    }
}

impl Vec3 {
    pub fn new(x: i64, y: i64, z: i64) -> (r: Vec3)
        requires
            fxv(x as int),
            fxv(y as int),
            fxv(z as int),
        ensures
            r == (Vec3 { x, y, z }),
            vec_ok(r),
    {
        Vec3 { x, y, z }
    }

    pub fn x(&self) -> (r: i64)
        ensures
            r == self.x,
    {
        self.x
    }

    pub fn y(&self) -> (r: i64)
        ensures
            r == self.y,
    {
        self.y
    }

    pub fn z(&self) -> (r: i64)
        ensures
            r == self.z,
    {
        self.z
    }

    /// The zero vector.
    pub fn zeros() -> (r: Vec3)
        ensures
            r == spec_zero(),
            vec_ok(r),
    {
        Vec3 { x: 0, y: 0, z: 0 }
    }

    /// The vector whose components are all one.
    pub fn ones() -> (r: Vec3)
        ensures
            r.x == fx_of_int(1) && r.y == fx_of_int(1) && r.z == fx_of_int(1),
            vec_ok(r),
    {
        Vec3 { x: SCALE, y: SCALE, z: SCALE }
    }

    pub fn add(self, other: Vec3) -> (r: Vec3)
        requires
            vec_ok(self),
            vec_ok(other),
        ensures
            r == spec_add(self, other),
            vec_ok(r),
    {
        Vec3 {
            x: add_fx(self.x, other.x),
            y: add_fx(self.y, other.y),
            z: add_fx(self.z, other.z),
        }
    }

    pub fn sub(self, other: Vec3) -> (r: Vec3)
        requires
            vec_ok(self),
            vec_ok(other),
        ensures
            r == spec_sub(self, other),
            vec_ok(r),
    {
        Vec3 {
            x: sub_fx(self.x, other.x),
            y: sub_fx(self.y, other.y),
            z: sub_fx(self.z, other.z),
        }
    }

    pub fn neg(self) -> (r: Vec3)
        requires
            vec_ok(self),
        ensures
            r == spec_neg(self),
            vec_ok(r),
    {
        Vec3 { x: neg_fx(self.x), y: neg_fx(self.y), z: neg_fx(self.z) }
    }

    /// Componentwise product, as colors attenuate.
    pub fn mul(self, other: Vec3) -> (r: Vec3)
        requires
            vec_ok(self),
            vec_ok(other),
        ensures
            r == spec_mul(self, other),
            vec_ok(r),
    {
        Vec3 {
            x: mul_fx(self.x, other.x),
            y: mul_fx(self.y, other.y),
            z: mul_fx(self.z, other.z),
        }
    }

    /// The vector scaled by the scalar `k`.
    pub fn scale(self, k: i64) -> (r: Vec3)
        requires
            vec_ok(self),
            fxv(k as int),
        ensures
            r == spec_scale(self, k as int),
            vec_ok(r),
    {
        Vec3 { x: mul_fx(self.x, k), y: mul_fx(self.y, k), z: mul_fx(self.z, k) }
    }

    /// The vector divided by the scalar `k`.
    pub fn div(self, k: i64) -> (r: Vec3)
        requires
            vec_ok(self),
            fxv(k as int),
        ensures
            r == spec_div(self, k as int),
            vec_ok(r),
    {
        Vec3 { x: div_fx(self.x, k), y: div_fx(self.y, k), z: div_fx(self.z, k) }
    }

    pub fn dot(&self, other: &Vec3) -> (r: i64)
        requires
            vec_ok(*self),
            vec_ok(*other),
        ensures
            r == spec_dot(*self, *other),
            fxv(r as int),
    {
        let xs = mul_fx(self.x, other.x);
        let ys = mul_fx(self.y, other.y);
        let zs = mul_fx(self.z, other.z);
        add_fx(add_fx(xs, ys), zs)
    }

    pub fn length_squared(&self) -> (r: i64)
        requires
            vec_ok(*self),
        ensures
            r == spec_len_sq(*self),
            fxv(r as int),
    {
        self.dot(self)
    }

    pub fn length(&self) -> (r: i64)
        requires
            vec_ok(*self),
        ensures
            r == spec_len(*self),
            fxv(r as int),
            r >= 0,
    {
        sqrt_fx(self.length_squared())
    }

    pub fn cross(&self, other: &Vec3) -> (r: Vec3)
        requires
            vec_ok(*self),
            vec_ok(*other),
        ensures
            r == spec_cross(*self, *other),
            vec_ok(r),
    {
        Vec3 {
            x: sub_fx(mul_fx(self.y, other.z), mul_fx(self.z, other.y)),
            y: sub_fx(mul_fx(self.z, other.x), mul_fx(self.x, other.z)),
            z: sub_fx(mul_fx(self.x, other.y), mul_fx(self.y, other.x)),
        }
    }

    /// Rescale to unit length; the zero vector stays zero.
    pub fn normalize(&self) -> (r: Vec3)
        requires
            vec_ok(*self),
        ensures
            r == spec_normalize(*self),
            vec_ok(r),
    {
        let len = self.length();
        self.div(len)
    }

    /// Mirror reflection about the normal `n`.
    pub fn reflect(&self, normal: &Vec3) -> (r: Vec3)
        requires
            vec_ok(*self),
            vec_ok(*normal),
        ensures
            r == spec_reflect(*self, *normal),
            vec_ok(r),
    {
        let d = self.dot(normal);
        let two_d = add_fx(d, d);
        self.sub(normal.scale(two_d))
    }

    /// Whether this vector agrees with `other` within tolerance `tol`.
    pub fn close_to_with_tol(self, other: Vec3, tol: i64) -> (r: bool)
        requires
            vec_ok(self),
            vec_ok(other),
            fxv(tol as int),
        ensures
            r == spec_close_to(self, other, tol as int),
    {
        let d = self.sub(other);
        d.length_squared() < mul_fx(tol, tol)
    }

    /// Whether this vector agrees with `other` within the fixed degeneracy
    /// tolerance of the tracer.
    pub fn close_to(self, other: Vec3) -> (r: bool)
        requires
            vec_ok(self),
            vec_ok(other),
        ensures
            r == spec_close_to(self, other, 256),
    {
        let tol: i64 = 256;
        self.close_to_with_tol(other, tol)
    }

    /// A vector with components uniform in `[0, 1)`.
    pub fn random(rng: &mut RandomSource) -> (r: Vec3)
        ensures
            (r, final (rng).state) == spec_random_in_bounds(old(rng).state, 0, SCALE as int),
            vec_ok(r),
    {
        Vec3::random_in_bounds(rng, 0, SCALE)
    }

    /// A vector with components uniform in `[lower, upper)`.
    pub fn random_in_bounds(rng: &mut RandomSource, lower: i64, upper: i64) -> (r: Vec3)
        requires
            lower < upper,
            upper - lower <= 0xFFFF_FFFF,
            fxv(lower as int),
            fxv(upper as int),
        ensures
            (r, final (rng).state) == spec_random_in_bounds(
                old(rng).state,
                lower as int,
                upper as int,
            ),
            vec_ok(r),
    {
        let x = rng.in_range(lower, upper);
        let y = rng.in_range(lower, upper);
        let z = rng.in_range(lower, upper);
        Vec3 { x, y, z }
    }

    /// A vector strictly inside the unit ball, by rejection from the
    /// enclosing cube; after `BALL_TRIES` rejections the zero vector.
    pub fn random_in_unit_ball(rng: &mut RandomSource) -> (r: Vec3)
        ensures
            (r, final (rng).state) == spec_unit_ball(old(rng).state, BALL_TRIES as nat),
            vec_ok(r),
            spec_len_sq(r) < SCALE,
    {
        let mut i: u64 = 0;
        while i < BALL_TRIES
            invariant
            0 <= i <= BALL_TRIES,
            spec_unit_ball(old(rng).state, BALL_TRIES as nat) == spec_unit_ball(
                rng.state,
                (BALL_TRIES - i) as nat,
            ),
            decreases BALL_TRIES - i,
        {
            let candidate = Vec3::random_in_bounds(rng, -SCALE, SCALE);
            if candidate.length_squared() < SCALE {
                return candidate;
            }
            i = i + 1;
        }
        Vec3 { x: 0, y: 0, z: 0 }
    }

    /// A unit-length scatter direction: a unit-ball draw, normalized.
    pub fn random_unit_vector(rng: &mut RandomSource) -> (r: Vec3)
        ensures
            (r, final (rng).state) == spec_unit_vector(old(rng).state),
            vec_ok(r),
    {
        let c = Vec3::random_in_unit_ball(rng);
        c.normalize()
    }

    /// A unit-ball draw flipped to lie in the hemisphere around `normal`.
    pub fn random_in_hemisphere(rng: &mut RandomSource, normal: Vec3) -> (r: Vec3)
        requires
            vec_ok(normal),
        ensures
            (r, final (rng).state) == spec_in_hemisphere(old(rng).state, normal),
            vec_ok(r),
    {
        let in_unit_sphere = Vec3::random_in_unit_ball(rng);
        if in_unit_sphere.dot(&normal) > 0 {
            in_unit_sphere
        } else {
            in_unit_sphere.neg()
        }
    }

    /// A vector strictly inside the unit disk of the `z == 0` plane; after
    /// `BALL_TRIES` rejections the zero vector.
    pub fn random_in_unit_disk(rng: &mut RandomSource) -> (r: Vec3)
        ensures
            (r, final (rng).state) == spec_unit_disk(old(rng).state, BALL_TRIES as nat),
            vec_ok(r),
            spec_len_sq(r) < SCALE,
    {
        let mut i: u64 = 0;
        while i < BALL_TRIES
            invariant
            0 <= i <= BALL_TRIES,
            spec_unit_disk(old(rng).state, BALL_TRIES as nat) == spec_unit_disk(
                rng.state,
                (BALL_TRIES - i) as nat,
            ),
            decreases BALL_TRIES - i,
        {
            let x = rng.in_range(-SCALE, SCALE);
            let y = rng.in_range(-SCALE, SCALE);
            let candidate = Vec3 { x, y, z: 0 };
            if candidate.length_squared() < SCALE {
                return candidate;
            }
            i = i + 1;
        }
        Vec3 { x: 0, y: 0, z: 0 }
    }
}

/// The squared length of any vector is nonnegative.
pub proof fn lemma_len_sq_nonneg(v: Vec3)
    ensures
        spec_len_sq(v) >= 0,
{
    lemma_fx_square_nonneg(v.x as int);
    lemma_fx_square_nonneg(v.y as int);
    lemma_fx_square_nonneg(v.z as int);
}

/// Dividing a scalar by the unit scale changes nothing.
proof fn lemma_fx_div_by_one(a: int)
    requires
        fxv(a),
    ensures
        fx_div(a, SCALE as int) == a,
{
    if a >= 0 {
        lemma_div_multiples_vanish(a, SCALE as int);
        assert(a * SCALE == SCALE * a) by (nonlinear_arith);
        assert(tdiv(a * SCALE, SCALE as int) == a);
    } else {
        lemma_div_multiples_vanish(-a, SCALE as int);
        assert(-(a * SCALE) == SCALE * (-a)) by (nonlinear_arith);
        assert(tdiv(a * SCALE, SCALE as int) == a);
    }
}

/// A unit normal has components of at most one in magnitude, and the exact
/// sum of its squared components lies within three rounding steps above the
/// exact unit square.
proof fn lemma_unit_normal_bounds(n: Vec3)
    requires
        vec_ok(n),
        spec_len_sq(n) == SCALE,
    ensures
        -SCALE <= n.x <= SCALE,
        -SCALE <= n.y <= SCALE,
        -SCALE <= n.z <= SCALE,
        SCALE * SCALE <= n.x * n.x + n.y * n.y + n.z * n.z < SCALE * SCALE + 3 * SCALE,
{
    let s = SCALE as int;
    let ax = n.x as int;
    let ay = n.y as int;
    let az = n.z as int;
    let mx = fx_mul(ax, ax);
    let my = fx_mul(ay, ay);
    let mz = fx_mul(az, az);
    lemma_fx_square_nonneg(ax);
    lemma_fx_square_nonneg(ay);
    lemma_fx_square_nonneg(az);
    // The saturating sums reached exactly one, so no addend saturated.
    assert(mx + my + mz == s && mx <= s && my <= s && mz <= s);
    assert(ax * ax >= 0 && ay * ay >= 0 && az * az >= 0) by (nonlinear_arith);
    lemma_tdiv_bounds(ax * ax, s);
    lemma_tdiv_bounds(ay * ay, s);
    lemma_tdiv_bounds(az * az, s);
    let qx = tdiv(ax * ax, s);
    let qy = tdiv(ay * ay, s);
    let qz = tdiv(az * az, s);
    assert(qx >= 0 && qy >= 0 && qz >= 0) by (nonlinear_arith)
        requires
            qx * s >= 0,
            qy * s >= 0,
            qz * s >= 0,
            s > 0,
    ;
    assert(mx == qx && my == qy && mz == qz);
    assert(ax * ax < s * s + s) by (nonlinear_arith)
        requires
            s == SCALE as int,
            qx <= s,
            qx * s > ax * ax - s,
    ;
    assert(ay * ay < s * s + s) by (nonlinear_arith)
        requires
            s == SCALE as int,
            qy <= s,
            qy * s > ay * ay - s,
    ;
    assert(az * az < s * s + s) by (nonlinear_arith)
        requires
            s == SCALE as int,
            qz <= s,
            qz * s > az * az - s,
    ;
    assert(-s <= ax <= s) by (nonlinear_arith)
        requires
            ax * ax < s * s + s,
            s == SCALE as int,
    ;
    assert(-s <= ay <= s) by (nonlinear_arith)
        requires
            ay * ay < s * s + s,
            s == SCALE as int,
    ;
    assert(-s <= az <= s) by (nonlinear_arith)
        requires
            az * az < s * s + s,
            s == SCALE as int,
    ;
    assert(s * s <= ax * ax + ay * ay + az * az < s * s + 3 * s) by (nonlinear_arith)
        requires
            qx + qy + qz == s,
            qx * s <= ax * ax < qx * s + s,
            qy * s <= ay * ay < qy * s + s,
            qz * s <= az * az < qz * s + s,
    ;
}

/// The reflection law in fixed point: reflecting a bounded incoming
/// direction about a unit normal flips the direction's component along the
/// normal — the angles on both sides of the normal agree — up to a small
/// rounding residue; and the reflection differs from the incoming
/// direction exactly by the rounded scalar multiple of the normal, so it
/// lies in the plane the two span.
pub proof fn lemma_reflect_law(d: Vec3, n: Vec3)
    requires
        vec_ok(d),
        vec_ok(n),
        spec_len_sq(n) == SCALE,
        -4 * SCALE <= d.x <= 4 * SCALE,
        -4 * SCALE <= d.y <= 4 * SCALE,
        -4 * SCALE <= d.z <= 4 * SCALE,
    ensures
        spec_reflect(d, n) == spec_sub(
            d,
            spec_scale(n, fx_add(spec_dot(d, n), spec_dot(d, n))),
        ),
        fx_abs(fx_add(spec_dot(spec_reflect(d, n), n), spec_dot(d, n))) <= 128,
{
    let s = SCALE as int;
    let dx = d.x as int;
    let dy = d.y as int;
    let dz = d.z as int;
    let nx = n.x as int;
    let ny = n.y as int;
    let nz = n.z as int;
    lemma_unit_normal_bounds(n);
    let n2 = nx * nx + ny * ny + nz * nz;

    // The exact dot product of the incoming direction with the normal.
    let de = dx * nx + dy * ny + dz * nz;
    assert(-4 * s * s <= dx * nx <= 4 * s * s) by (nonlinear_arith)
        requires
            -4 * s <= dx <= 4 * s,
            -s <= nx <= s,
    ;
    assert(-4 * s * s <= dy * ny <= 4 * s * s) by (nonlinear_arith)
        requires
            -4 * s <= dy <= 4 * s,
            -s <= ny <= s,
    ;
    assert(-4 * s * s <= dz * nz <= 4 * s * s) by (nonlinear_arith)
        requires
            -4 * s <= dz <= 4 * s,
            -s <= nz <= s,
    ;
    let ux = fx_mul(dx, nx);
    let uy = fx_mul(dy, ny);
    let uz = fx_mul(dz, nz);
    lemma_fx_mul_err(dx, nx);
    lemma_fx_mul_err(dy, ny);
    lemma_fx_mul_err(dz, nz);
    assert(-4 * s <= ux <= 4 * s && -4 * s <= uy <= 4 * s && -4 * s <= uz <= 4 * s)
        by (nonlinear_arith)
        requires
            s == SCALE as int,
            -s < ux * s - dx * nx < s,
            -s < uy * s - dy * ny < s,
            -s < uz * s - dz * nz < s,
            -4 * s * s <= dx * nx <= 4 * s * s,
            -4 * s * s <= dy * ny <= 4 * s * s,
            -4 * s * s <= dz * nz <= 4 * s * s,
    ;
    let dot = spec_dot(d, n);
    assert(dot == ux + uy + uz);
    assert(-3 * s < dot * s - de < 3 * s) by (nonlinear_arith)
        requires
            dot == ux + uy + uz,
            de == dx * nx + dy * ny + dz * nz,
            -s < ux * s - dx * nx < s,
            -s < uy * s - dy * ny < s,
            -s < uz * s - dz * nz < s,
    ;

    // Twice the dot product does not saturate.
    let k = fx_add(dot, dot);
    assert(k == 2 * dot);
    assert(-24 * s <= k <= 24 * s);
    assert(-6 * s < k * s - 2 * de < 6 * s) by (nonlinear_arith)
        requires
            k == 2 * dot,
            -3 * s < dot * s - de < 3 * s,
    ;

    // The rounded multiple of the normal.
    let mx = fx_mul(nx, k);
    let my = fx_mul(ny, k);
    let mz = fx_mul(nz, k);
    assert(-24 * s * s <= nx * k <= 24 * s * s) by (nonlinear_arith)
        requires
            -s <= nx <= s,
            -24 * s <= k <= 24 * s,
    ;
    assert(-24 * s * s <= ny * k <= 24 * s * s) by (nonlinear_arith)
        requires
            -s <= ny <= s,
            -24 * s <= k <= 24 * s,
    ;
    assert(-24 * s * s <= nz * k <= 24 * s * s) by (nonlinear_arith)
        requires
            -s <= nz <= s,
            -24 * s <= k <= 24 * s,
    ;
    lemma_fx_mul_err(nx, k);
    lemma_fx_mul_err(ny, k);
    lemma_fx_mul_err(nz, k);
    assert(-25 * s <= mx <= 25 * s && -25 * s <= my <= 25 * s && -25 * s <= mz <= 25 * s)
        by (nonlinear_arith)
        requires
            s == SCALE as int,
            -s < mx * s - nx * k < s,
            -s < my * s - ny * k < s,
            -s < mz * s - nz * k < s,
            -24 * s * s <= nx * k <= 24 * s * s,
            -24 * s * s <= ny * k <= 24 * s * s,
            -24 * s * s <= nz * k <= 24 * s * s,
    ;

    // The reflection subtracts the multiple exactly.
    let r = spec_reflect(d, n);
    assert(r == spec_sub(d, spec_scale(n, k)));
    let rx = r.x as int;
    let ry = r.y as int;
    let rz = r.z as int;
    assert(rx == dx - mx && ry == dy - my && rz == dz - mz);
    assert(-29 * s <= rx <= 29 * s && -29 * s <= ry <= 29 * s && -29 * s <= rz <= 29 * s);

    // The dot product of the reflection with the normal.
    assert(-29 * s * s <= rx * nx <= 29 * s * s) by (nonlinear_arith)
        requires
            -29 * s <= rx <= 29 * s,
            -s <= nx <= s,
    ;
    assert(-29 * s * s <= ry * ny <= 29 * s * s) by (nonlinear_arith)
        requires
            -29 * s <= ry <= 29 * s,
            -s <= ny <= s,
    ;
    assert(-29 * s * s <= rz * nz <= 29 * s * s) by (nonlinear_arith)
        requires
            -29 * s <= rz <= 29 * s,
            -s <= nz <= s,
    ;
    let vx = fx_mul(rx, nx);
    let vy = fx_mul(ry, ny);
    let vz = fx_mul(rz, nz);
    lemma_fx_mul_err(rx, nx);
    lemma_fx_mul_err(ry, ny);
    lemma_fx_mul_err(rz, nz);
    assert(-29 * s <= vx <= 29 * s && -29 * s <= vy <= 29 * s && -29 * s <= vz <= 29 * s)
        by (nonlinear_arith)
        requires
            s == SCALE as int,
            -s < vx * s - rx * nx < s,
            -s < vy * s - ry * ny < s,
            -s < vz * s - rz * nz < s,
            -29 * s * s <= rx * nx <= 29 * s * s,
            -29 * s * s <= ry * ny <= 29 * s * s,
            -29 * s * s <= rz * nz <= 29 * s * s,
    ;
    let dotr = spec_dot(r, n);
    assert(dotr == vx + vy + vz);
    let re = rx * nx + ry * ny + rz * nz;
    assert(-3 * s < dotr * s - re < 3 * s) by (nonlinear_arith)
        requires
            dotr == vx + vy + vz,
            re == rx * nx + ry * ny + rz * nz,
            -s < vx * s - rx * nx < s,
            -s < vy * s - ry * ny < s,
            -s < vz * s - rz * nz < s,
    ;

    // The exact sums: what was subtracted along the normal.
    let me = mx * nx + my * ny + mz * nz;
    assert(re == de - me) by (nonlinear_arith)
        requires
            rx == dx - mx,
            ry == dy - my,
            rz == dz - mz,
            re == rx * nx + ry * ny + rz * nz,
            de == dx * nx + dy * ny + dz * nz,
            me == mx * nx + my * ny + mz * nz,
    ;

    // The subtracted multiple against the exact normal square.
    assert(-s * s < mx * nx * s - nx * nx * k < s * s) by (nonlinear_arith)
        requires
            -s < mx * s - nx * k < s,
            -s <= nx <= s,
    ;
    assert(-s * s < my * ny * s - ny * ny * k < s * s) by (nonlinear_arith)
        requires
            -s < my * s - ny * k < s,
            -s <= ny <= s,
    ;
    assert(-s * s < mz * nz * s - nz * nz * k < s * s) by (nonlinear_arith)
        requires
            -s < mz * s - nz * k < s,
            -s <= nz <= s,
    ;
    assert(-3 * s * s < me * s - n2 * k < 3 * s * s) by (nonlinear_arith)
        requires
            me == mx * nx + my * ny + mz * nz,
            n2 == nx * nx + ny * ny + nz * nz,
            -s * s < mx * nx * s - nx * nx * k < s * s,
            -s * s < my * ny * s - ny * ny * k < s * s,
            -s * s < mz * nz * s - nz * nz * k < s * s,
    ;
    assert(-72 * s * s <= n2 * k - s * s * k <= 72 * s * s) by (nonlinear_arith)
        requires
            s * s <= n2 < s * s + 3 * s,
            -24 * s <= k <= 24 * s,
            s == SCALE as int,
    ;
    assert(-75 * s < me - s * k < 75 * s) by (nonlinear_arith)
        requires
            s == SCALE as int,
            -3 * s * s < me * s - n2 * k < 3 * s * s,
            -72 * s * s <= n2 * k - s * s * k <= 72 * s * s,
    ;

    // Assemble: the reflected dot plus the incoming dot is a residue.
    let t = dotr + dot;
    assert(-87 * s < t * s < 87 * s) by (nonlinear_arith)
        requires
            s == SCALE as int,
            t == dotr + dot,
            -3 * s < dotr * s - re < 3 * s,
            re == de - me,
            -3 * s < dot * s - de < 3 * s,
            -6 * s < k * s - 2 * de < 6 * s,
            -75 * s < me - s * k < 75 * s,
    ;
    assert(-87 < t < 87) by (nonlinear_arith)
        requires
            s == SCALE as int,
            -87 * s < t * s < 87 * s,
    ;
    assert(fx_add(dotr, dot) == t);
    assert(fx_abs(fx_add(spec_dot(spec_reflect(d, n), n), spec_dot(d, n))) <= 128);
}

/// Normalization is idempotent: a vector whose length is already one is
/// handed back unchanged, so its length is still exactly one.
pub proof fn lemma_normalize_idempotent(v: Vec3)
    requires
        vec_ok(v),
        spec_len(v) == SCALE,
    ensures
        spec_normalize(v) == v,
        spec_len(spec_normalize(v)) == SCALE,
{
    lemma_fx_div_by_one(v.x as int);
    lemma_fx_div_by_one(v.y as int);
    lemma_fx_div_by_one(v.z as int);
    assert(spec_normalize(v) == v);
}

impl Default for Vec3 {
    /// The zero vector.
    fn default() -> (r: Vec3)
        ensures
            r == spec_zero(),
    {
        Vec3 { x: 0, y: 0, z: 0 }
    }
}

} // verus!
