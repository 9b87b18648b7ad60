//! Spheres: the one geometric primitive, intersected by solving the
//! half-coefficient quadratic.
use vstd::prelude::*;
use crate::hittable::{HitRecord, Hittable, spec_face_normal};
use crate::interval::Interval;
use crate::material::{Material, material_ok, random_material_from_presets,
    spec_presets};
use crate::ray::{Ray, ray_ok, spec_ray_at};
use crate::rng::{RandomSource, rng_next, rng_below, rng_in_range};
use crate::vec3::{Point3, vec_ok, spec_sub, spec_div, spec_dot, spec_len_sq,
    spec_random_in_bounds};
use crate::fx::{SCALE, FX_MAX, fx_abs, fx_add, fx_sub, fx_mul, fx_div, fx_sqrt, tdiv, sqf,
    add_fx, sub_fx, neg_fx, mul_fx, div_fx, sqrt_fx, lemma_tdiv_bounds, lemma_tdiv_monotone,
    lemma_fx_mul_sign, lemma_fx_square_nonneg, lemma_sqf_exists};
use crate::vec3::lemma_len_sq_nonneg;

verus! {

/// A sphere with its surface material. The radius must be positive: a
/// non-positive radius is a construction defect, kept out by the
/// constructor's precondition.
#[derive(Clone, Copy, PartialEq, Eq, Structural, Debug)]
pub struct Sphere {
    pub center: Point3,
    pub radius: i64,
    pub material: Material,
}

/// Whether the sphere is well formed: representable center, positive
/// representable radius, representable material.
pub open spec fn sphere_ok(s: Sphere) -> bool {
    vec_ok(s.center) && 0 < s.radius <= FX_MAX && material_ok(s.material)
}

/// The intersection a sphere reports: the smaller quadratic root if it lies
/// strictly inside `ray_t`, else the larger, else nothing; a negative
/// discriminant is a miss.
pub open spec fn spec_sphere_hit(s: Sphere, ray: Ray, ray_t: Interval) -> Option<HitRecord> {
    let oc = spec_sub(ray.origin, s.center);
    let a = spec_len_sq(ray.direction);
    let half_b = spec_dot(oc, ray.direction);
    let c = fx_sub(spec_len_sq(oc), fx_mul(s.radius as int, s.radius as int));
    let discriminant = fx_sub(fx_mul(half_b, half_b), fx_mul(a, c));
    if discriminant < 0 {
        None
    } else {
        let discriminant_sqrt = fx_sqrt(discriminant);
        let t1 = fx_div(fx_sub(-half_b, discriminant_sqrt), a);
        let t2 = fx_div(fx_add(-half_b, discriminant_sqrt), a);
        if ray_t.lower < t1 < ray_t.upper {
            Some(spec_sphere_record(s, ray, t1))
        } else if ray_t.lower < t2 < ray_t.upper {
            Some(spec_sphere_record(s, ray, t2))
        } else {
            None
        }
    }
}

/// The record a sphere fills in for an accepted parameter `t`.
pub open spec fn spec_sphere_record(s: Sphere, ray: Ray, t: int) -> HitRecord {
    let p = spec_ray_at(ray, t);
    let outward = spec_div(spec_sub(p, s.center), s.radius as int);
    let fn_pair = spec_face_normal(ray, outward);
    HitRecord { p, normal: fn_pair.1, t: t as i64, front_face: fn_pair.0, material: s.material }
}

impl Sphere {
    /// A sphere from its center, a positive radius, and its material.
    pub fn new(center: Point3, radius: i64, material: Material) -> (r: Sphere)
        requires
            vec_ok(center),
            0 < radius <= FX_MAX,
            material_ok(material),
        ensures
            r == (Sphere { center, radius, material }),
            sphere_ok(r),
    {
        Sphere { center, radius, material }
    }

    /// A sphere with a preset material, a center in the unit cube and a
    /// radius below one; a degenerate zero radius draw is bumped to the
    /// smallest representable radius.
    pub fn random(rng: &mut RandomSource) -> (r: Sphere)
        ensures
            sphere_ok(r),
            r.material == spec_presets()[rng_below(old(rng).state, 6) as int],
            ({
                let s1 = rng_next(old(rng).state);
                let (center, s4) = spec_random_in_bounds(s1, 0, SCALE as int);
                let raw = rng_in_range(s4, 0, SCALE as int);
                r.center == center && r.radius == (if raw == 0 {
                    1int
                } else {
                    raw
                }) && final (rng).state == rng_next(s4)
            }),
    {
        let material = random_material_from_presets(rng);
        let center = Point3::random(rng);
        let raw_radius = rng.in_range(0, SCALE);
        let radius: i64 = if raw_radius == 0 {
            1
        } else {
            raw_radius
        };

        Sphere { center, radius, material }
    }
}

/// A ray that starts outside a sphere and points away from it misses: when
/// the origin lies strictly outside the surface and the direction does not
/// approach the center, the intersection is `None` for any acceptance
/// window of forward parameters.
pub proof fn lemma_pointing_away_misses(s: Sphere, ray: Ray, ray_t: Interval)
    requires
        sphere_ok(s),
        ray_ok(ray),
        ray_t.lower >= 0,
        spec_dot(spec_sub(ray.origin, s.center), ray.direction) >= 0,
        spec_len_sq(spec_sub(ray.origin, s.center)) > fx_mul(s.radius as int, s.radius as int),
    ensures
        spec_sphere_hit(s, ray, ray_t) is None,
{
    let oc = spec_sub(ray.origin, s.center);
    let a = spec_len_sq(ray.direction);
    let half_b = spec_dot(oc, ray.direction);
    let m_r = fx_mul(s.radius as int, s.radius as int);
    let c = fx_sub(spec_len_sq(oc), m_r);
    let m1 = fx_mul(half_b, half_b);
    let m2 = fx_mul(a, c);
    let discriminant = fx_sub(m1, m2);

    lemma_len_sq_nonneg(ray.direction);
    lemma_len_sq_nonneg(oc);
    lemma_fx_square_nonneg(s.radius as int);
    lemma_fx_square_nonneg(half_b);
    assert(c >= 1);
    assert(a * c >= 0) by (nonlinear_arith)
        requires
            a >= 0,
            c >= 1,
    ;
    lemma_fx_mul_sign(a, c);
    assert(m2 >= 0);
    assert(discriminant <= m1);

    if discriminant >= 0 {
        // The square root of the discriminant stays at most the half
        // coefficient, so both roots are behind the origin.
        let sq = fx_sqrt(discriminant);
        if discriminant > 0 {
            lemma_sqf_exists(discriminant * SCALE);
            assert(sq >= 0);
            let q = tdiv(half_b * half_b, SCALE as int);
            lemma_tdiv_bounds(half_b * half_b, SCALE as int);
            assert(q >= 0) by (nonlinear_arith)
                requires
                    q * (SCALE as int) >= 0,
            ;
            assert(m1 <= q);
            assert(m1 * SCALE <= q * SCALE <= half_b * half_b) by (nonlinear_arith)
                requires
                    m1 <= q,
                    q * (SCALE as int) <= half_b * half_b,
            ;
            let g = sqf(discriminant * SCALE);
            assert(discriminant * SCALE <= m1 * SCALE);
            assert(g <= half_b) by (nonlinear_arith)
                requires
                    g >= 0,
                    half_b >= 0,
                    g * g <= discriminant * SCALE,
                    discriminant * SCALE <= half_b * half_b,
            ;
            assert(sq <= half_b);
        } else {
            assert(sq == 0);
        }
        assert(0 <= sq <= half_b);

        let num1 = fx_sub(-half_b, sq);
        let num2 = fx_add(-half_b, sq);
        assert(num1 <= 0);
        assert(num2 <= 0);
        if a == 0 {
            assert(fx_div(num1, a) <= 0);
            assert(fx_div(num2, a) <= 0);
        } else {
            lemma_tdiv_bounds(num1 * SCALE, a);
            lemma_tdiv_bounds(num2 * SCALE, a);
            let q1 = tdiv(num1 * SCALE, a);
            let q2 = tdiv(num2 * SCALE, a);
            assert(num1 * SCALE <= 0);
            assert(num2 * SCALE <= 0);
            assert(q1 <= 0) by (nonlinear_arith)
                requires
                    q1 * a <= 0,
                    a > 0,
            ;
            assert(q2 <= 0) by (nonlinear_arith)
                requires
                    q2 * a <= 0,
                    a > 0,
            ;
            assert(fx_div(num1, a) <= 0);
            assert(fx_div(num2, a) <= 0);
        }
    }
}

/// Shrinking the far end of the acceptance window to anywhere past a
/// reported parameter leaves the report unchanged: the same root is picked
/// again, so a composite may test each member against the best parameter
/// found so far without losing a nearer hit.
pub proof fn lemma_sphere_hit_narrow(s: Sphere, ray: Ray, lower: i64, u_narrow: i64, u_wide: i64)
    requires
        sphere_ok(s),
        ray_ok(ray),
        u_narrow <= u_wide,
        spec_sphere_hit(s, ray, Interval { lower, upper: u_wide }) is Some,
        spec_sphere_hit(s, ray, Interval { lower, upper: u_wide }).unwrap().t < u_narrow,
    ensures
        spec_sphere_hit(s, ray, Interval { lower, upper: u_narrow }) == spec_sphere_hit(
            s,
            ray,
            Interval { lower, upper: u_wide },
        ),
{
    let oc = spec_sub(ray.origin, s.center);
    let a = spec_len_sq(ray.direction);
    let half_b = spec_dot(oc, ray.direction);
    let c = fx_sub(spec_len_sq(oc), fx_mul(s.radius as int, s.radius as int));
    let discriminant = fx_sub(fx_mul(half_b, half_b), fx_mul(a, c));
    assert(discriminant >= 0);
    let sq = fx_sqrt(discriminant);
    if discriminant > 0 {
        lemma_sqf_exists(discriminant * SCALE);
    }
    assert(sq >= 0);
    let n1 = fx_sub(-half_b, sq);
    let n2 = fx_add(-half_b, sq);
    assert(n1 <= n2);
    let t1 = fx_div(n1, a);
    let t2 = fx_div(n2, a);
    lemma_len_sq_nonneg(ray.direction);
    if a != 0 {
        lemma_tdiv_monotone(n1 * SCALE, n2 * SCALE, a as int);
    }
    assert(t1 <= t2);
}

/// The two candidate intersection parameters are symmetric about the
/// parameter of closest approach: away from the saturation rail their sum
/// stays within a few representation steps of twice the midpoint
/// parameter, the fixed-point residue of the exact identity
/// `t1 + t2 == -b / a`.
pub proof fn lemma_roots_symmetric(s: Sphere, ray: Ray)
    requires
        sphere_ok(s),
        ray_ok(ray),
        spec_len_sq(ray.direction) >= 4096,
        fx_abs(spec_dot(spec_sub(ray.origin, s.center), ray.direction)) <= 0x2000_0000,
    ensures
        ({
            let oc = spec_sub(ray.origin, s.center);
            let a = spec_len_sq(ray.direction);
            let half_b = spec_dot(oc, ray.direction);
            let c = fx_sub(spec_len_sq(oc), fx_mul(s.radius as int, s.radius as int));
            let discriminant = fx_sub(fx_mul(half_b, half_b), fx_mul(a, c));
            let sq = fx_sqrt(discriminant);
            let t1 = fx_div(fx_sub(-half_b, sq), a);
            let t2 = fx_div(fx_add(-half_b, sq), a);
            let t_mid = fx_div(-half_b, a);
            -4 < t1 + t2 - 2 * t_mid < 4
        }),
{
    let oc = spec_sub(ray.origin, s.center);
    let a = spec_len_sq(ray.direction);
    let half_b = spec_dot(oc, ray.direction);
    let c = fx_sub(spec_len_sq(oc), fx_mul(s.radius as int, s.radius as int));
    let discriminant = fx_sub(fx_mul(half_b, half_b), fx_mul(a, c));
    let sq = fx_sqrt(discriminant);

    // The square root of a saturated scalar is below 2^32.
    if discriminant > 0 {
        let g = sqf(discriminant * SCALE);
        lemma_sqf_exists(discriminant * SCALE);
        assert(discriminant * SCALE <= 0x4000_0000_0000_0000);
        assert(g <= 0x1_0000_0000) by (nonlinear_arith)
            requires
                g >= 0,
                g * g <= 0x4000_0000_0000_0000int,
        ;
        assert(0 <= sq <= 0x1_0000_0000);
    } else {
        assert(sq == 0);
    }
    assert(0 <= sq <= 0x1_0000_0000);

    let x1 = fx_sub(-half_b, sq);
    let x2 = fx_add(-half_b, sq);
    let xm = -half_b;
    assert(fx_abs(half_b) <= 0x2000_0000);
    assert(x1 == -half_b - sq && x2 == -half_b + sq);
    assert(x1 + x2 == 2 * xm);
    assert(-0x1_4000_0000 <= x1 <= 0x1_4000_0000);
    assert(-0x1_4000_0000 <= x2 <= 0x1_4000_0000);

    lemma_tdiv_bounds(x1 * SCALE, a);
    lemma_tdiv_bounds(x2 * SCALE, a);
    lemma_tdiv_bounds(xm * SCALE, a);
    let q1 = tdiv(x1 * SCALE, a);
    let q2 = tdiv(x2 * SCALE, a);
    let qm = tdiv(xm * SCALE, a);

    // None of the three quotients saturates.
    assert(-0x1_4000_0000_0000int <= x1 * SCALE <= 0x1_4000_0000_0000int);
    assert(-0x1_4000_0000_0000int <= x2 * SCALE <= 0x1_4000_0000_0000int);
    assert(-0x1_4000_0000_0000int <= xm * SCALE <= 0x1_4000_0000_0000int);
    assert(-FX_MAX <= q1 <= FX_MAX) by (nonlinear_arith)
        requires
            a >= 4096,
            -a < q1 * a - x1 * (SCALE as int) < a,
            -0x1_4000_0000_0000int <= x1 * (SCALE as int) <= 0x1_4000_0000_0000int,
    ;
    assert(-FX_MAX <= q2 <= FX_MAX) by (nonlinear_arith)
        requires
            a >= 4096,
            -a < q2 * a - x2 * (SCALE as int) < a,
            -0x1_4000_0000_0000int <= x2 * (SCALE as int) <= 0x1_4000_0000_0000int,
    ;
    assert(-FX_MAX <= qm <= FX_MAX) by (nonlinear_arith)
        requires
            a >= 4096,
            -a < qm * a - xm * (SCALE as int) < a,
            -0x1_4000_0000_0000int <= xm * (SCALE as int) <= 0x1_4000_0000_0000int,
    ;
    assert(fx_div(x1, a) == q1);
    assert(fx_div(x2, a) == q2);
    assert(fx_div(xm, a) == qm);

    // The division errors cancel up to one step each.
    assert((x1 + x2) * SCALE == 2 * (xm * SCALE)) by (nonlinear_arith)
        requires
            x1 + x2 == 2 * xm,
    ;
    assert(-4 < q1 + q2 - 2 * qm < 4) by (nonlinear_arith)
        requires
            a >= 4096,
            -a < q1 * a - x1 * (SCALE as int) < a,
            -a < q2 * a - x2 * (SCALE as int) < a,
            -a < qm * a - xm * (SCALE as int) < a,
            (x1 + x2) * (SCALE as int) == 2 * (xm * (SCALE as int)),
    ;
}

impl Hittable for Sphere {
    open spec fn wf(&self) -> bool {
        sphere_ok(*self)
    }

    open spec fn spec_hit(&self, ray: Ray, ray_t: Interval) -> Option<HitRecord> {
        spec_sphere_hit(*self, ray, ray_t)
    }

    /// Solve the half-coefficient quadratic and accept the nearest root
    /// strictly inside `ray_t`.
    fn hit(&self, ray: &Ray, ray_t: Interval) -> (r: Option<HitRecord>) {
        let ray_origin_to_center = ray.origin.sub(self.center);
        let a = ray.direction.length_squared();
        let half_b = ray_origin_to_center.dot(&ray.direction);
        let c = sub_fx(
            ray_origin_to_center.length_squared(),
            mul_fx(self.radius, self.radius),
        );
        let discriminant = sub_fx(mul_fx(half_b, half_b), mul_fx(a, c));

        if discriminant < 0 {
            return None;
        }
        let discriminant_sqrt = sqrt_fx(discriminant);
        // Try the smaller root first, so the nearest valid hit wins.
        let mut t = div_fx(sub_fx(neg_fx(half_b), discriminant_sqrt), a);
        if !ray_t.surrounds(t) {
            t = div_fx(add_fx(neg_fx(half_b), discriminant_sqrt), a);
            if !ray_t.surrounds(t) {
                return None;
            }
        }
        let p = ray.at(t);
        let outward_normal = p.sub(self.center).div(self.radius);
        let mut record = HitRecord {
            p,
            normal: outward_normal,
            t,
            front_face: true,
            material: self.material,
        };
        record.set_face_normal(ray, outward_normal);
        Some(record)
    }
}

} // verus!
