//! Rays: an origin with a direction, evaluated parametrically. Also home to
//! the first, fixed-scene shading pair that predates the camera: a direct
//! quadratic test against one sphere and a normal-colored shader.
use vstd::prelude::*;
use crate::fx::{SCALE, HALF_SCALE, fxv, fx_add, fx_sub, fx_mul, fx_div, fx_sqrt, fx_of_int,
    add_fx, sub_fx, neg_fx, mul_fx, div_fx, sqrt_fx, int_to_fx};
use crate::vec3::{Vec3, Point3, vec_ok, spec_add, spec_sub, spec_scale, spec_dot, spec_len_sq,
    spec_normalize, spec_zero};

verus! {

/// A ray: origin plus direction, neither required to be unit length.
#[derive(Clone, Copy, PartialEq, Eq, Structural, Debug)]
pub struct Ray {
    pub origin: Point3,
    pub direction: Vec3,
}

/// Whether both members have representable components.
pub open spec fn ray_ok(r: Ray) -> bool {
    vec_ok(r.origin) && vec_ok(r.direction)
}

/// The point the ray reaches at parameter `t`.
pub open spec fn spec_ray_at(r: Ray, t: int) -> Vec3 {
    spec_add(r.origin, spec_scale(r.direction, t))
}

impl Ray {
    pub fn new(origin: Point3, direction: Vec3) -> (r: Ray)
        requires
            vec_ok(origin),
            vec_ok(direction),
        ensures
            r == (Ray { origin, direction }),
            ray_ok(r),
    {
        Ray { origin, direction }
    }

    /// The point at parameter `t` along the ray.
    pub fn at(&self, t: i64) -> (r: Point3)
        requires
            ray_ok(*self),
            fxv(t as int),
        ensures
            r == spec_ray_at(*self, t as int),
            vec_ok(r),
    {
        self.origin.add(self.direction.scale(t))
    }
}

impl Default for Ray {
    /// A ray resting at the origin.
    fn default() -> (r: Ray)
        ensures
            r == (Ray { origin: spec_zero(), direction: spec_zero() }),
            ray_ok(r),
    {
        Ray { origin: Vec3 { x: 0, y: 0, z: 0 }, direction: Vec3 { x: 0, y: 0, z: 0 } }
    }
}

/// The smaller quadratic root of the sphere test, or minus one for a miss.
pub open spec fn spec_hit_sphere(center: Point3, radius: int, ray: Ray) -> int {
    let oc = spec_sub(ray.origin, center);
    let a = spec_dot(ray.direction, ray.direction);
    let b = fx_add(spec_dot(oc, ray.direction), spec_dot(oc, ray.direction));
    let c = fx_sub(spec_len_sq(oc), fx_mul(radius, radius));
    let disc = fx_sub(fx_mul(b, b), fx_mul(fx_mul(fx_of_int(4), a), c));
    if disc < 0 {
        -(SCALE as int)
    } else {
        fx_div(fx_sub(-b, fx_sqrt(disc)), fx_add(a, a))
    }
}

/// Solve the full quadratic for one sphere and hand back the smaller root,
/// or minus one when the discriminant is negative.
pub fn hit_sphere(center: Point3, radius: i64, ray: &Ray) -> (r: i64)
    requires
        vec_ok(center),
        fxv(radius as int),
        ray_ok(*ray),
    ensures
        r == spec_hit_sphere(center, radius as int, *ray),
        fxv(r as int),
{
    let ray_origin_to_center = ray.origin.sub(center);
    let a = ray.direction.dot(&ray.direction);
    let half_b = ray_origin_to_center.dot(&ray.direction);
    let b = add_fx(half_b, half_b);
    let c = sub_fx(ray_origin_to_center.length_squared(), mul_fx(radius, radius));
    let discriminant = sub_fx(mul_fx(b, b), mul_fx(mul_fx(int_to_fx(4), a), c));

    if discriminant < 0 {
        return -SCALE;
    }

    div_fx(sub_fx(neg_fx(b), sqrt_fx(discriminant)), add_fx(a, a))
}

/// The color of `ray` against the fixed one-sphere scene: the shifted
/// surface normal on a hit, the sky gradient on a miss.
pub open spec fn spec_demo_ray_color(ray: Ray) -> Vec3 {
    let center = Vec3 { x: 0, y: 0, z: (-SCALE) as i64 };
    let t = spec_hit_sphere(center, HALF_SCALE as int, ray);
    if t > 0 {
        let n = spec_normalize(spec_sub(spec_ray_at(ray, t), center));
        spec_scale(
            Vec3 {
                x: fx_add(n.x as int, SCALE as int) as i64,
                y: fx_add(n.y as int, SCALE as int) as i64,
                z: fx_add(n.z as int, SCALE as int) as i64,
            },
            HALF_SCALE as int,
        )
    } else {
        let dir = spec_normalize(ray.direction);
        let a = fx_mul(HALF_SCALE as int, fx_add(dir.y as int, SCALE as int));
        spec_add(
            spec_scale(Vec3 { x: SCALE, y: SCALE, z: SCALE }, fx_sub(SCALE as int, a)),
            spec_scale(Vec3 { x: HALF_SCALE, y: 45875, z: SCALE }, a),
        )
    }
}

/// Shade `ray` against the fixed one-sphere scene, coloring a hit by its
/// surface normal and a miss by the sky gradient.
pub fn ray_color(ray: &Ray) -> (r: Vec3)
    requires
        ray_ok(*ray),
    ensures
        r == spec_demo_ray_color(*ray),
        vec_ok(r),
{
    let sphere_center = Point3::new(0, 0, -SCALE);
    let sphere_radius: i64 = HALF_SCALE;

    let t = hit_sphere(sphere_center, sphere_radius, ray);
    if t > 0 {
        let normal_vector = ray.at(t).sub(sphere_center).normalize();
        return Vec3::new(
            add_fx(normal_vector.x, SCALE),
            add_fx(normal_vector.y, SCALE),
            add_fx(normal_vector.z, SCALE),
        ).scale(HALF_SCALE);
    }

    let direction = ray.direction.normalize();
    let a = mul_fx(HALF_SCALE, add_fx(direction.y, SCALE));
    Vec3::new(SCALE, SCALE, SCALE).scale(sub_fx(SCALE, a)).add(
        Vec3::new(HALF_SCALE, 45875, SCALE).scale(a),
    )
}

} // verus!
