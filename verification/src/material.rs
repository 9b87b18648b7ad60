//! The light-scattering model: a closed set of three material behaviors,
//! dispatched by variant. A material answers an incoming ray at a hit point
//! with an attenuation color and a scattered ray, or absorbs the ray.
use vstd::prelude::*;
use crate::color::Color;
use crate::hittable::HitRecord;
use crate::ray::{Ray, ray_ok};
use crate::rng::{RandomSource, rng_next, rng_below};
use crate::vec3::{Vec3, vec_ok, spec_add, spec_scale, spec_dot, spec_len_sq, spec_normalize,
    spec_reflect, spec_close_to, spec_zero, spec_unit_vector, spec_random_in_bounds};
use crate::fx::{SCALE, fxv, fx_sub, fx_mul, fx_div, fx_sqrt, fx_abs, fx_of_int, sub_fx, neg_fx,
    mul_fx, div_fx, sqrt_fx, abs_fx, int_to_fx};

verus! {

/// The closed set of material kinds.
#[derive(Clone, Copy, PartialEq, Eq, Structural, Debug)]
pub enum MaterialType {
    Lambertian,
    Metal,
    Dielectric,
}

/// A diffuse surface: scatters about the normal, attenuating by its albedo.
#[derive(Clone, Copy, PartialEq, Eq, Structural, Debug)]
pub struct Lambertian {
    pub albedo: Color,
}

/// A specular surface: mirrors the incoming ray, attenuating by its albedo.
#[derive(Clone, Copy, PartialEq, Eq, Structural, Debug)]
pub struct Metal {
    pub albedo: Color,
}

/// A refractive surface holding its index of refraction as a scalar.
#[derive(Clone, Copy, PartialEq, Eq, Structural, Debug)]
pub struct Dielectric {
    pub refraction_index: i64,
}

/// A material: one of the closed set of behaviors, carrying its data.
#[derive(Clone, Copy, PartialEq, Eq, Structural, Debug)]
pub enum Material {
    Lambertian(Lambertian),
    Metal(Metal),
    Dielectric(Dielectric),
}

/// Whether the material's data is representable.
pub open spec fn material_ok(m: Material) -> bool {
    match m {
        Material::Lambertian(l) => vec_ok(l.albedo),
        Material::Metal(l) => vec_ok(l.albedo),
        Material::Dielectric(d) => fxv(d.refraction_index as int),
    }
}

/// What a diffuse surface scatters: a ray from the hit point about the
/// normal plus a random unit vector, falling back to the normal itself when
/// that sum degenerates to near zero; always scatters.
pub open spec fn spec_lambertian_scatter(l: Lambertian, rec: HitRecord, s: u64) -> (Option<
    (Color, Ray)
>, u64) {
    let (uv, s2) = spec_unit_vector(s);
    let d0 = spec_add(rec.normal, uv);
    let d = if spec_close_to(d0, spec_zero(), 256) {
        rec.normal
    } else {
        d0
    };
    (Some((l.albedo, Ray { origin: rec.p, direction: d })), s2)
}

/// What a specular surface scatters: the mirror reflection of the incoming
/// direction about the normal; always scatters and draws nothing random.
pub open spec fn spec_metal_scatter(m: Metal, incoming: Ray, rec: HitRecord, s: u64) -> (Option<
    (Color, Ray)
>, u64) {
    (
        Some(
            (m.albedo, Ray { origin: rec.p, direction: spec_reflect(incoming.direction, rec.normal) }),
        ),
        s,
    )
}

/// The refraction ratio a dielectric uses: the outside index (one) over its
/// own when the ray arrives from outside, the reciprocal otherwise.
pub open spec fn spec_refraction_ratio(d: Dielectric, front_face: bool) -> int {
    if front_face {
        fx_div(fx_of_int(1), d.refraction_index as int)
    } else {
        fx_div(d.refraction_index as int, fx_of_int(1))
    }
}

/// The cosine a dielectric measures between the reversed unit incoming
/// direction and the normal, capped at one.
pub open spec fn spec_cos_theta(unit_direction: Vec3, normal: Vec3) -> int {
    let nd = -spec_dot(unit_direction, normal);
    if nd > SCALE {
        SCALE as int
    } else {
        nd
    }
}

/// The refracted direction for a unit incoming direction: the component
/// orthogonal to the normal scaled by the ratio, plus the parallel
/// component completing a unit result.
pub open spec fn spec_refract_direction(unit_direction: Vec3, normal: Vec3, ratio: int) -> Vec3 {
    let cos = spec_cos_theta(unit_direction, normal);
    let orthogonal = spec_scale(spec_add(unit_direction, spec_scale(normal, cos)), ratio);
    let parallel = spec_scale(normal, -fx_sqrt(fx_abs(fx_sub(SCALE as int, spec_len_sq(orthogonal)))));
    spec_add(parallel, orthogonal)
}

/// Whether refraction is geometrically infeasible for the unit incoming
/// direction: the scaled sine exceeds one, forcing total internal
/// reflection.
pub open spec fn spec_cannot_refract(unit_direction: Vec3, normal: Vec3, ratio: int) -> bool {
    let cos = spec_cos_theta(unit_direction, normal);
    let sin = fx_sqrt(fx_sub(SCALE as int, fx_mul(cos, cos)));
    fx_mul(ratio, sin) > SCALE
}

/// What a dielectric scatters: white attenuation, and either the mirror
/// reflection (under total internal reflection) or the refracted ray;
/// always scatters and draws nothing random.
pub open spec fn spec_dielectric_scatter(d: Dielectric, incoming: Ray, rec: HitRecord, s: u64) -> (
    Option<(Color, Ray)>,
    u64,
) {
    let ratio = spec_refraction_ratio(d, rec.front_face);
    let unit_direction = spec_normalize(incoming.direction);
    let direction = if spec_cannot_refract(unit_direction, rec.normal, ratio) {
        spec_reflect(unit_direction, rec.normal)
    } else {
        spec_refract_direction(unit_direction, rec.normal, ratio)
    };
    (
        Some(
            (
                Vec3 { x: SCALE, y: SCALE, z: SCALE },
                Ray { origin: rec.p, direction },
            ),
        ),
        s,
    )
}

/// What a material scatters, by its variant.
pub open spec fn spec_material_scatter(m: Material, incoming: Ray, rec: HitRecord, s: u64) -> (
    Option<(Color, Ray)>,
    u64,
) {
    match m {
        Material::Lambertian(l) => spec_lambertian_scatter(l, rec, s),
        Material::Metal(l) => spec_metal_scatter(l, incoming, rec, s),
        Material::Dielectric(d) => spec_dielectric_scatter(d, incoming, rec, s),
    }
}

impl Lambertian {
    /// Scatter about the normal; the attenuation is the fixed albedo.
    pub fn scatter(&self, rng: &mut RandomSource, _incoming_ray: &Ray, rec: &HitRecord) -> (r:
        Option<(Color, Ray)>)
        requires
            vec_ok(self.albedo),
            vec_ok(rec.normal),
            vec_ok(rec.p),
        ensures
            (r, final (rng).state) == spec_lambertian_scatter(*self, *rec, old(rng).state),
            match r {
                Some(pair) => vec_ok(pair.0) && ray_ok(pair.1) && pair.1.origin == rec.p,
                None => false,
            },
    {
        let mut scatter_direction: Vec3 = rec.normal.add(Vec3::random_unit_vector(rng));
        if scatter_direction.close_to(Vec3::zeros()) {
            scatter_direction = rec.normal;
        }
        let scattered_ray = Ray::new(rec.p, scatter_direction);
        let attenuation = self.albedo;
        Some((attenuation, scattered_ray))
    }
}

impl Metal {
    /// Mirror the incoming direction; the attenuation is the fixed albedo.
    pub fn scatter(&self, _rng: &mut RandomSource, incoming_ray: &Ray, rec: &HitRecord) -> (r:
        Option<(Color, Ray)>)
        requires
            vec_ok(self.albedo),
            vec_ok(rec.normal),
            vec_ok(rec.p),
            ray_ok(*incoming_ray),
        ensures
            (r, final (_rng).state) == spec_metal_scatter(
                *self,
                *incoming_ray,
                *rec,
                old(_rng).state,
            ),
            match r {
                Some(pair) => vec_ok(pair.0) && ray_ok(pair.1) && pair.1.origin == rec.p,
                None => false,
            },
    {
        let reflected = incoming_ray.direction.reflect(&rec.normal);
        let scattered_ray = Ray::new(rec.p, reflected);
        let attenuation = self.albedo;
        Some((attenuation, scattered_ray))
    }
}

impl Dielectric {
    pub fn new(refraction_index: i64) -> (r: Dielectric)
        requires
            fxv(refraction_index as int),
        ensures
            r == (Dielectric { refraction_index }),
    {
        Dielectric { refraction_index }
    }

    /// The mirror reflection of the incoming direction at the hit point.
    fn reflect(&self, incoming_ray_direction: Vec3, rec: &HitRecord) -> (r: Option<Ray>)
        requires
            vec_ok(incoming_ray_direction),
            vec_ok(rec.normal),
            vec_ok(rec.p),
        ensures
            r == Some(
                Ray {
                    origin: rec.p,
                    direction: spec_reflect(incoming_ray_direction, rec.normal),
                },
            ),
            ray_ok(r.unwrap()),
    {
        let reflected_direction = incoming_ray_direction.reflect(&rec.normal);
        let reflected_ray = Ray::new(rec.p, reflected_direction);
        Some(reflected_ray)
    }

    /// The refracted ray at the hit point, by splitting the unit incoming
    /// direction into components orthogonal and parallel to the normal.
    fn refract(&self, incoming_ray_direction: Vec3, rec: &HitRecord, refraction_ratio: i64) -> (r:
        Option<Ray>)
        requires
            vec_ok(incoming_ray_direction),
            vec_ok(rec.normal),
            vec_ok(rec.p),
            fxv(refraction_ratio as int),
        ensures
            r == Some(
                Ray {
                    origin: rec.p,
                    direction: spec_refract_direction(
                        incoming_ray_direction,
                        rec.normal,
                        refraction_ratio as int,
                    ),
                },
            ),
            ray_ok(r.unwrap()),
    {
        let d = incoming_ray_direction.dot(&rec.normal);
        let nd = neg_fx(d);
        let cos_theta: i64 = if nd > SCALE {
            SCALE
        } else {
            nd
        };

        let refracted_direction_orthogonal = incoming_ray_direction.add(
            rec.normal.scale(cos_theta),
        ).scale(refraction_ratio);
        let refracted_direction_parallel = rec.normal.scale(
            neg_fx(
                sqrt_fx(abs_fx(sub_fx(SCALE, refracted_direction_orthogonal.length_squared()))),
            ),
        );

        let refracted_direction = refracted_direction_parallel.add(refracted_direction_orthogonal);

        let refracted_ray = Ray::new(rec.p, refracted_direction);

        Some(refracted_ray)
    }

    /// Scatter by refracting when Snell's law admits it, else reflecting;
    /// the attenuation is fixed white.
    pub fn scatter(&self, _rng: &mut RandomSource, incoming_ray: &Ray, rec: &HitRecord) -> (r:
        Option<(Color, Ray)>)
        requires
            fxv(self.refraction_index as int),
            vec_ok(rec.normal),
            vec_ok(rec.p),
            ray_ok(*incoming_ray),
        ensures
            (r, final (_rng).state) == spec_dielectric_scatter(
                *self,
                *incoming_ray,
                *rec,
                old(_rng).state,
            ),
            match r {
                Some(pair) => vec_ok(pair.0) && ray_ok(pair.1) && pair.1.origin == rec.p,
                None => false,
            },
    {
        let color = Color::new_const(SCALE, SCALE, SCALE);

        let refraction_ratio: i64 = if rec.front_face {
            div_fx(int_to_fx(1), self.refraction_index)
        } else {
            div_fx(self.refraction_index, int_to_fx(1))
        };

        let unit_direction = incoming_ray.direction.normalize();
        let d = unit_direction.dot(&rec.normal);
        let nd = neg_fx(d);
        let cos_theta: i64 = if nd > SCALE {
            SCALE
        } else {
            nd
        };
        let sin_theta = sqrt_fx(sub_fx(SCALE, mul_fx(cos_theta, cos_theta)));
        let cannot_refract = mul_fx(refraction_ratio, sin_theta) > SCALE;
        let scattered_ray: Option<Ray> = if cannot_refract {
            self.reflect(unit_direction, rec)
        } else {
            self.refract(unit_direction, rec, refraction_ratio)
        };
        Some((color, scattered_ray.unwrap()))
    }
}

impl Material {
    /// Scatter an incoming ray at a hit, by this material's variant: the
    /// attenuation color and the scattered ray, which always starts at the
    /// hit point.
    pub fn scatter(&self, rng: &mut RandomSource, incoming_ray: &Ray, rec: &HitRecord) -> (r:
        Option<(Color, Ray)>)
        requires
            material_ok(*self),
            vec_ok(rec.normal),
            vec_ok(rec.p),
            ray_ok(*incoming_ray),
        ensures
            (r, final (rng).state) == spec_material_scatter(
                *self,
                *incoming_ray,
                *rec,
                old(rng).state,
            ),
            match r {
                Some(pair) => vec_ok(pair.0) && ray_ok(pair.1) && pair.1.origin == rec.p,
                None => false,
            },
    {
        match self {
            Material::Lambertian(l) => l.scatter(rng, incoming_ray, rec),
            Material::Metal(m) => m.scatter(rng, incoming_ray, rec),
            Material::Dielectric(d) => d.scatter(rng, incoming_ray, rec),
        }
    }
}

/// The dielectric's choice is exactly Snell's feasibility test: whenever
/// the scaled sine stays at most one (`spec_cannot_refract` is false) the
/// scattered ray carries the refracted direction, never the reflection;
/// and under total internal reflection it carries the mirror reflection,
/// never the refraction. The ray is never absorbed and no randomness is
/// drawn.
pub proof fn lemma_dielectric_choice(d: Dielectric, incoming: Ray, rec: HitRecord, s: u64)
    ensures
        ({
            let ratio = spec_refraction_ratio(d, rec.front_face);
            let unit_direction = spec_normalize(incoming.direction);
            let scat = spec_dielectric_scatter(d, incoming, rec, s);
            &&& scat.1 == s
            &&& scat.0 is Some
            &&& (spec_cannot_refract(unit_direction, rec.normal, ratio) ==> scat.0.unwrap().1.direction
                == spec_reflect(unit_direction, rec.normal))
            &&& (!spec_cannot_refract(unit_direction, rec.normal, ratio)
                ==> scat.0.unwrap().1.direction == spec_refract_direction(
                unit_direction,
                rec.normal,
                ratio,
            ))
        }),
{
}

/// The plain gray diffuse preset.
pub open spec fn concrete_material() -> Material {
    Material::Lambertian(Lambertian { albedo: Vec3 { x: 32768, y: 32768, z: 32768 } })
}

/// The six preset materials, in their fixed order: concrete, ground,
/// copper, silver, red plastic, glass.
pub open spec fn spec_presets() -> Seq<Material> {
    seq![
        concrete_material(),
        Material::Lambertian(Lambertian { albedo: Vec3 { x: 52428, y: 52428, z: 0 } }),
        Material::Metal(Metal { albedo: Vec3 { x: 45875, y: 32768, z: 19660 } }),
        Material::Metal(Metal { albedo: Vec3 { x: 58982, y: 58982, z: 58982 } }),
        Material::Lambertian(Lambertian { albedo: Vec3 { x: 58982, y: 6553, z: 6553 } }),
        Material::Dielectric(Dielectric { refraction_index: 98304 }),
    ]
}

/// The plain gray diffuse material many scenes ground on.
pub fn material_concrete() -> (r: Material)
    ensures
        r == concrete_material(),
        material_ok(r),
{
    Material::Lambertian(Lambertian { albedo: Vec3 { x: 32768, y: 32768, z: 32768 } })
}

/// The preset palette: six long-lived materials shared by many spheres.
pub fn material_presets() -> (r: Vec<Material>)
    ensures
        r@ == spec_presets(),
        forall|i: int| 0 <= i < r@.len() ==> material_ok(#[trigger] r@[i]),
{
    let mut v: Vec<Material> = Vec::new();
    v.push(Material::Lambertian(Lambertian { albedo: Vec3 { x: 32768, y: 32768, z: 32768 } }));
    v.push(Material::Lambertian(Lambertian { albedo: Vec3 { x: 52428, y: 52428, z: 0 } }));
    v.push(Material::Metal(Metal { albedo: Vec3 { x: 45875, y: 32768, z: 19660 } }));
    v.push(Material::Metal(Metal { albedo: Vec3 { x: 58982, y: 58982, z: 58982 } }));
    v.push(Material::Lambertian(Lambertian { albedo: Vec3 { x: 58982, y: 6553, z: 6553 } }));
    v.push(Material::Dielectric(Dielectric { refraction_index: 98304 }));
    proof {
        assert(v@ =~= spec_presets());
    }
    v
}

/// One of the six presets, drawn uniformly.
pub fn random_material_from_presets(rng: &mut RandomSource) -> (r: Material)
    ensures
        final (rng).state == rng_next(old(rng).state),
        r == spec_presets()[rng_below(old(rng).state, 6) as int],
        material_ok(r),
{
    let presets = material_presets();
    let material_index = rng.below(6);
    presets[material_index as usize]
}

/// A diffuse or specular kind, drawn uniformly between the two.
fn random_material_type(rng: &mut RandomSource) -> (r: MaterialType)
    ensures
        final (rng).state == rng_next(old(rng).state),
        r == (if rng_below(old(rng).state, 2) == 0 {
            MaterialType::Lambertian
        } else {
            MaterialType::Metal
        }),
{
    let material_type_index = rng.below(2);
    match material_type_index {
        0 => MaterialType::Lambertian,
        _ => MaterialType::Metal,
    }
}

/// The material drawn from state `s`: a diffuse or specular surface with a
/// random albedo; the dielectric arm of the dispatch draws a random index
/// but is never selected by the kind draw.
pub open spec fn spec_random_static_material(s: u64) -> (Material, u64) {
    let s1 = rng_next(s);
    if rng_below(s, 2) == 0 {
        let (albedo, s2) = spec_random_in_bounds(s1, 0, SCALE as int);
        (Material::Lambertian(Lambertian { albedo }), s2)
    } else {
        let (albedo, s2) = spec_random_in_bounds(s1, 0, SCALE as int);
        (Material::Metal(Metal { albedo }), s2)
    }
}

/// A long-lived material of a random kind with a random albedo.
pub fn random_static_material(rng: &mut RandomSource) -> (r: Material)
    ensures
        (r, final (rng).state) == spec_random_static_material(old(rng).state),
        material_ok(r),
{
    let material_type = random_material_type(rng);
    match material_type {
        MaterialType::Lambertian => Material::Lambertian(
            Lambertian { albedo: Color::random(rng) },
        ),
        MaterialType::Metal => Material::Metal(Metal { albedo: Color::random(rng) }),
        MaterialType::Dielectric => Material::Dielectric(
            Dielectric { refraction_index: rng.in_range(SCALE, 2 * SCALE) },
        ),
    }
}

} // verus!
