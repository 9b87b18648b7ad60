//! The composite scene: an insertion-ordered collection of spheres,
//! intersected by a linear scan that keeps the nearest hit.
use vstd::prelude::*;
use crate::hittable::{HitRecord, Hittable, hit_ok};
use crate::interval::{Interval, interval_ok};
use crate::ray::{Ray, ray_ok};
use crate::sphere::{Sphere, sphere_ok, spec_sphere_hit, lemma_sphere_hit_narrow};

verus! {

/// A scene: the spheres a ray is tested against, in insertion order.
pub struct HittableList {
    pub objects: Vec<Sphere>,
}

/// Whether every member of the scene is well formed.
pub open spec fn list_ok(l: HittableList) -> bool {
    forall|i: int| 0 <= i < l.objects@.len() ==> sphere_ok(#[trigger] l.objects@[i])
}

/// The nearest hit over the members from `i` on, given the nearest
/// parameter `closest` and record `rec` found so far: each member is tested
/// against a window shrunk to the best parameter yet.
pub open spec fn spec_hit_from(
    objects: Seq<Sphere>,
    i: int,
    ray: Ray,
    lower: i64,
    closest: i64,
    rec: Option<HitRecord>,
) -> Option<HitRecord>
    decreases objects.len() - i,
{
    if i < 0 || i >= objects.len() {
        rec
    } else {
        match spec_sphere_hit(objects[i], ray, Interval { lower, upper: closest }) {
            Some(h) => spec_hit_from(objects, i + 1, ray, lower, h.t, Some(h)),
            None => spec_hit_from(objects, i + 1, ray, lower, closest, rec),
        }
    }
}

/// The nearest hit the whole scene reports for `ray` within `ray_t`.
pub open spec fn spec_list_hit(objects: Seq<Sphere>, ray: Ray, ray_t: Interval) -> Option<
    HitRecord,
> {
    spec_hit_from(objects, 0, ray, ray_t.lower, ray_t.upper, None)
}

/// Once the scan holds a best hit it never loses it, and whatever it
/// reports is never farther than the best parameter it started from.
proof fn lemma_hit_from_shrinks(
    objects: Seq<Sphere>,
    j: int,
    ray: Ray,
    lower: i64,
    closest: i64,
    rec: Option<HitRecord>,
)
    requires
        match rec {
            Some(h) => h.t == closest,
            None => true,
        },
    ensures
        ({
            let out = spec_hit_from(objects, j, ray, lower, closest, rec);
            &&& (rec is Some ==> out is Some)
            &&& (out is Some ==> out.unwrap().t <= closest)
        }),
    decreases objects.len() - j,
{
    if !(j < 0 || j >= objects.len()) {
        match spec_sphere_hit(objects[j], ray, Interval { lower, upper: closest }) {
            Some(h) => {
                assert(h.t < closest);
                lemma_hit_from_shrinks(objects, j + 1, ray, lower, h.t, Some(h));
            },
            None => {
                lemma_hit_from_shrinks(objects, j + 1, ray, lower, closest, rec);
            },
        }
    }
}

/// While the scan still has member `i` ahead of it and already sits at the
/// state `(closest, rec)`, it ends on a hit no farther than what member
/// `i` reports inside the original window ending at `upper0`.
proof fn lemma_hit_from_nearest(
    objects: Seq<Sphere>,
    j: int,
    ray: Ray,
    lower: i64,
    closest: i64,
    rec: Option<HitRecord>,
    upper0: i64,
    i: int,
)
    requires
        ray_ok(ray),
        0 <= j <= objects.len(),
        j <= i < objects.len(),
        sphere_ok(objects[i]),
        match rec {
            Some(h) => h.t == closest,
            None => closest == upper0,
        },
        closest <= upper0,
        spec_sphere_hit(objects[i], ray, Interval { lower, upper: upper0 }) is Some,
    ensures
        ({
            let out = spec_hit_from(objects, j, ray, lower, closest, rec);
            let hi = spec_sphere_hit(objects[i], ray, Interval { lower, upper: upper0 }).unwrap();
            out is Some && out.unwrap().t <= hi.t
        }),
    decreases objects.len() - j,
{
    let hi = spec_sphere_hit(objects[i], ray, Interval { lower, upper: upper0 }).unwrap();
    assert(lower < hi.t < upper0);
    if j == i {
        if hi.t < closest {
            lemma_sphere_hit_narrow(objects[i], ray, lower, closest, upper0);
            assert(spec_sphere_hit(objects[i], ray, Interval { lower, upper: closest })
                == Some(hi));
            lemma_hit_from_shrinks(objects, j + 1, ray, lower, hi.t, Some(hi));
        } else {
            assert(rec is Some);
            match spec_sphere_hit(objects[j], ray, Interval { lower, upper: closest }) {
                Some(h) => {
                    assert(h.t < closest);
                    lemma_hit_from_shrinks(objects, j + 1, ray, lower, h.t, Some(h));
                },
                None => {
                    lemma_hit_from_shrinks(objects, j + 1, ray, lower, closest, rec);
                },
            }
        }
    } else {
        match spec_sphere_hit(objects[j], ray, Interval { lower, upper: closest }) {
            Some(h) => {
                assert(h.t < closest);
                lemma_hit_from_nearest(objects, j + 1, ray, lower, h.t, Some(h), upper0, i);
            },
            None => {
                lemma_hit_from_nearest(objects, j + 1, ray, lower, closest, rec, upper0, i);
            },
        }
    }
}

/// The composite reports the globally nearest intersection in the original
/// window: whenever any member reports a hit inside the window, the whole
/// scan reports one, and its parameter is at most that member's.
pub proof fn lemma_list_hit_nearest(objects: Seq<Sphere>, ray: Ray, ray_t: Interval, i: int)
    requires
        ray_ok(ray),
        0 <= i < objects.len(),
        sphere_ok(objects[i]),
        spec_sphere_hit(objects[i], ray, ray_t) is Some,
    ensures
        spec_list_hit(objects, ray, ray_t) is Some,
        spec_list_hit(objects, ray, ray_t).unwrap().t <= spec_sphere_hit(
            objects[i],
            ray,
            ray_t,
        ).unwrap().t,
{
    assert(ray_t == (Interval { lower: ray_t.lower, upper: ray_t.upper }));
    lemma_hit_from_nearest(objects, 0, ray, ray_t.lower, ray_t.upper, None, ray_t.upper, i);
}

impl HittableList {
    /// An empty scene.
    pub fn new() -> (r: HittableList)
        ensures
            r.objects@ == Seq::<Sphere>::empty(),
            list_ok(r),
    {
        HittableList { objects: Vec::new() }
    }

    /// Append one sphere; members already added keep their places.
    pub fn add(&mut self, object: Sphere)
        requires
            sphere_ok(object),
        ensures
            final (self).objects@ == old(self).objects@.push(object),
    {
        self.objects.push(object);
    }
}

impl Hittable for HittableList {
    open spec fn wf(&self) -> bool {
        list_ok(*self)
    }

    open spec fn spec_hit(&self, ray: Ray, ray_t: Interval) -> Option<HitRecord> {
        spec_list_hit(self.objects@, ray, ray_t)
    }

    /// Scan every member, shrinking the acceptance window to the best
    /// parameter found, so the overall result is the nearest hit in the
    /// original interval.
    fn hit(&self, ray: &Ray, ray_t: Interval) -> (r: Option<HitRecord>) {
        let mut closest_so_far = ray_t.upper;
        let mut record: Option<HitRecord> = None;
        let mut i: usize = 0;
        while i < self.objects.len()
            invariant
                self.wf(),
                ray_ok(*ray),
                interval_ok(ray_t),
                0 <= i <= self.objects@.len(),
                spec_hit_from(
                    self.objects@,
                    i as int,
                    *ray,
                    ray_t.lower,
                    closest_so_far,
                    record,
                ) == spec_list_hit(self.objects@, *ray, ray_t),
                match record {
                    Some(h) => hit_ok(h) && ray_t.lower < h.t < ray_t.upper && closest_so_far
                        == h.t,
                    None => closest_so_far == ray_t.upper,
                },
            decreases self.objects@.len() - i,
        {
            let object = &self.objects[i];
            if let Some(temp_record) = object.hit(
                ray,
                Interval { lower: ray_t.lower, upper: closest_so_far },
            ) {
                closest_so_far = temp_record.t;
                record = Some(temp_record);
            }
            i = i + 1;
        }
        record
    }
}

} // verus!
