//! The geometry contract: what a successful intersection reports, and the
//! interface every piece of scene geometry offers the tracer.
use vstd::prelude::*;
use crate::interval::{Interval, interval_ok};
use crate::material::{Material, material_ok, concrete_material, material_concrete};
use crate::ray::{Ray, ray_ok};
use crate::vec3::{Vec3, Point3, vec_ok, spec_dot, spec_neg, spec_zero};
use crate::fx::fxv;

verus! {

/// What a successful intersection reports: the hit point, the normal turned
/// to face the incoming ray, the ray parameter, whether the ray arrived
/// from outside, and the surface's material.
#[derive(Clone, Copy, PartialEq, Eq, Structural, Debug)]
pub struct HitRecord {
    pub p: Point3,
    pub normal: Vec3,
    pub t: i64,
    pub front_face: bool,
    pub material: Material,
}

/// Whether every member of the record is representable.
pub open spec fn hit_ok(h: HitRecord) -> bool {
    vec_ok(h.p) && vec_ok(h.normal) && fxv(h.t as int) && material_ok(h.material)
}

/// The pair `(front_face, facing normal)` for a ray meeting a surface whose
/// outward normal is `outward`: the normal is flipped to oppose the ray.
pub open spec fn spec_face_normal(r: Ray, outward: Vec3) -> (bool, Vec3) {
    let front = spec_dot(r.direction, outward) < 0;
    (front, if front { outward } else { spec_neg(outward) })
}

impl HitRecord {
    /// Record whether the ray arrived from outside and store the normal
    /// flipped to oppose it; `outward_normal` is expected to be unit
    /// length.
    pub fn set_face_normal(&mut self, r: &Ray, outward_normal: Vec3)
        requires
            ray_ok(*r),
            vec_ok(outward_normal),
        ensures
            (final (self).front_face, final (self).normal) == spec_face_normal(
                *r,
                outward_normal,
            ),
            final (self).p == old(self).p,
            final (self).t == old(self).t,
            final (self).material == old(self).material,
            vec_ok(final (self).normal),
    {
        self.front_face = r.direction.dot(&outward_normal) < 0;
        self.normal = if self.front_face {
            outward_normal
        } else {
            outward_normal.neg()
        };
    }
}

impl Default for HitRecord {
    /// A record at the origin against the plain concrete surface.
    fn default() -> (r: HitRecord)
        ensures
            r == (HitRecord {
                p: spec_zero(),
                normal: spec_zero(),
                t: 0,
                front_face: true,
                material: concrete_material(),
            }),
            hit_ok(r),
    {
        HitRecord {
            p: Vec3 { x: 0, y: 0, z: 0 },
            normal: Vec3 { x: 0, y: 0, z: 0 },
            t: 0,
            front_face: true,
            material: material_concrete(),
        }
    }
}

/// Scene geometry: anything a ray can be intersected with. The result is
/// pinned down by the implementor's own intersection spec.
pub trait Hittable {
    /// Whether this piece of geometry is well formed.
    spec fn wf(&self) -> bool;

    /// The intersection this geometry reports for `ray` within `ray_t`.
    spec fn spec_hit(&self, ray: Ray, ray_t: Interval) -> Option<HitRecord>;

    /// Intersect `ray` with this geometry, accepting parameters strictly
    /// inside `ray_t`; a returned record is well formed and its parameter
    /// lies strictly inside the interval.
    fn hit(&self, ray: &Ray, ray_t: Interval) -> (r: Option<HitRecord>)
        requires
            self.wf(),
            ray_ok(*ray),
            interval_ok(ray_t),
        ensures
            r == self.spec_hit(*ray, ray_t),
            match r {
                Some(h) => hit_ok(h) && ray_t.lower < h.t < ray_t.upper,
                None => true,
            },
    ;
}

} // verus!
