use eerdekens_bot::camera::Camera;
use eerdekens_bot::color::channel_byte;
use eerdekens_bot::fx::SCALE;
use eerdekens_bot::hittable::{HitRecord, Hittable};
use eerdekens_bot::hittable_list::HittableList;
use eerdekens_bot::interval::Interval;
use eerdekens_bot::material::{
    material_presets, random_material_from_presets, random_static_material, Dielectric,
    Lambertian, Material, Metal,
};
use eerdekens_bot::ppm::push_pixel_line;
use eerdekens_bot::ray::{hit_sphere, ray_color, Ray};
use eerdekens_bot::rng::RandomSource;
use eerdekens_bot::sphere::Sphere;
use eerdekens_bot::utils::{degrees_to_radians, tan_fx};
use eerdekens_bot::vec3::{Point3, Vec3};
use eerdekens_bot::write_image_file::gradient_image_bytes;

fn fx(v: i64) -> i64 {
    v * SCALE
}

fn gray() -> Material {
    Material::Lambertian(Lambertian {
        albedo: Vec3::new(SCALE / 2, SCALE / 2, SCALE / 2),
    })
}

#[test]
fn test_ray_pointing_away_misses() {
    // Origin outside the sphere, direction pointing away: no hit.
    let sphere = Sphere::new(Point3::new(0, 0, fx(-3)), fx(1), gray());
    let ray = Ray::new(Point3::new(0, 0, 0), Vec3::new(0, 0, fx(1)));
    let hit = sphere.hit(&ray, Interval::new(66, fx(1000)));
    assert!(hit.is_none());
}

#[test]
fn test_ray_through_center_roots() {
    // A ray straight through the center meets the near surface exactly two
    // units out: the roots 2 and 4 are symmetric about the center at 3.
    let sphere = Sphere::new(Point3::new(0, 0, fx(-3)), fx(1), gray());
    let ray = Ray::new(Point3::new(0, 0, 0), Vec3::new(0, 0, fx(-1)));
    let hit = sphere.hit(&ray, Interval::new(66, fx(1000))).unwrap();
    assert_eq!(hit.t, fx(2));
    assert_eq!(hit.p, Point3::new(0, 0, fx(-2)));
    assert_eq!(hit.normal, Vec3::new(0, 0, fx(1)));
    assert!(hit.front_face);
    // The far root alone lies in a window past the center.
    let far = sphere.hit(&ray, Interval::new(fx(3), fx(1000))).unwrap();
    assert_eq!(far.t, fx(4));
}

#[test]
fn test_metal_reflection_law() {
    // Mirror reflection about a vertical normal flips the vertical
    // component exactly.
    let rec = HitRecord {
        p: Point3::new(0, 0, 0),
        normal: Vec3::new(0, fx(1), 0),
        t: fx(1),
        front_face: true,
        material: gray(),
    };
    let metal = Metal { albedo: Vec3::new(fx(1), fx(1), fx(1)) };
    let incoming = Ray::new(Point3::new(fx(-1), fx(1), 0), Vec3::new(fx(1), fx(-1), 0));
    let mut rng = RandomSource::new(1);
    let (attenuation, scattered) = metal.scatter(&mut rng, &incoming, &rec).unwrap();
    assert_eq!(attenuation, Vec3::new(fx(1), fx(1), fx(1)));
    assert_eq!(scattered.origin, rec.p);
    assert_eq!(scattered.direction, Vec3::new(fx(1), fx(1), 0));
}

#[test]
fn test_dielectric_refracts_straight_through() {
    // Head-on incidence: refraction is feasible and the ray passes
    // straight through.
    let rec = HitRecord {
        p: Point3::new(0, 0, 0),
        normal: Vec3::new(0, fx(1), 0),
        t: fx(1),
        front_face: true,
        material: gray(),
    };
    let glass = Dielectric::new(98304);
    let incoming = Ray::new(Point3::new(0, fx(1), 0), Vec3::new(0, fx(-1), 0));
    let mut rng = RandomSource::new(1);
    let (attenuation, scattered) = glass.scatter(&mut rng, &incoming, &rec).unwrap();
    assert_eq!(attenuation, Vec3::new(fx(1), fx(1), fx(1)));
    assert_eq!(scattered.direction, Vec3::new(0, fx(-1), 0));
}

#[test]
fn test_dielectric_total_internal_reflection() {
    // From inside glass at forty-five degrees the scaled sine exceeds one,
    // so the ray is mirrored, not refracted.
    let rec = HitRecord {
        p: Point3::new(0, 0, 0),
        normal: Vec3::new(0, fx(1), 0),
        t: fx(1),
        front_face: false,
        material: gray(),
    };
    let glass = Dielectric::new(98304);
    let incoming = Ray::new(Point3::new(fx(-1), fx(1), 0), Vec3::new(fx(1), fx(-1), 0));
    let mut rng = RandomSource::new(1);
    let (_, scattered) = glass.scatter(&mut rng, &incoming, &rec).unwrap();
    // The mirror image of the unit incoming direction.
    assert_eq!(scattered.direction, Vec3::new(46341, 46341, 0));
}

#[test]
fn test_lambertian_falls_back_to_normal_on_degenerate_sum() {
    let rec = HitRecord {
        p: Point3::new(0, 0, 0),
        normal: Vec3::new(0, fx(1), 0),
        t: fx(1),
        front_face: true,
        material: gray(),
    };
    let diffuse = Lambertian { albedo: Vec3::new(fx(1), 0, 0) };
    let incoming = Ray::new(Point3::new(0, fx(1), 0), Vec3::new(0, fx(-1), 0));
    let mut rng = RandomSource::new(11);
    let (attenuation, scattered) = diffuse.scatter(&mut rng, &incoming, &rec).unwrap();
    assert_eq!(attenuation, Vec3::new(fx(1), 0, 0));
    assert_eq!(scattered.origin, rec.p);
    // The scattered direction leans into the hemisphere around the normal.
    assert!(scattered.direction.y() > -SCALE);
}

#[test]
fn test_nearest_of_two_spheres_wins() {
    let mut world = HittableList::new();
    world.add(Sphere::new(Point3::new(0, 0, fx(-5)), fx(1), gray()));
    world.add(Sphere::new(Point3::new(0, 0, fx(-2)), SCALE / 2, gray()));
    let ray = Ray::new(Point3::new(0, 0, 0), Vec3::new(0, 0, fx(-1)));
    let hit = world.hit(&ray, Interval::new(66, fx(1000))).unwrap();
    // The small near sphere is reported, not the far one.
    assert_eq!(hit.t, fx(1) + SCALE / 2);
}

#[test]
fn test_center_pixel_hits_single_sphere() {
    // A unit-field camera one focus unit from a half-radius sphere: the
    // center pixel's ray must hit, and with a bounce budget of one the
    // diffuse bounce comes back black, never the background gradient.
    let mut world = HittableList::new();
    world.add(Sphere::new(Point3::new(0, 0, fx(-1)), SCALE / 2, gray()));
    let mut camera = Camera::default();
    camera.aspect_ratio = SCALE;
    camera.image_width = 3;
    camera.num_samples_per_pixel = 1;
    camera.max_depth = 1;
    camera.vfov = 90 * SCALE;
    camera.lookfrom = Point3::new(0, 0, 0);
    camera.lookat = Point3::new(0, 0, fx(-1));
    camera.v_up = Vec3::new(0, fx(1), 0);
    camera.defocus_angle = 0;
    camera.focus_dist = fx(1);
    let pixels = camera.render(&world, 5);
    assert_eq!(pixels.len(), 9);
    assert_eq!(pixels[4], Vec3::zeros());
}

#[test]
fn test_empty_scene_renders_background_gradient() {
    let world = HittableList::new();
    let mut camera = Camera::default();
    camera.aspect_ratio = SCALE;
    camera.image_width = 3;
    camera.num_samples_per_pixel = 1;
    camera.max_depth = 5;
    camera.vfov = 90 * SCALE;
    camera.lookfrom = Point3::new(0, 0, 0);
    camera.lookat = Point3::new(0, 0, fx(-1));
    camera.v_up = Vec3::new(0, fx(1), 0);
    camera.defocus_angle = 0;
    camera.focus_dist = fx(1);
    let pixels = camera.render(&world, 5);
    assert_eq!(pixels.len(), 9);
    // No pixel is black: every ray sees the gradient.
    for p in &pixels {
        assert!(p.x() > 0 && p.y() > 0 && p.z() > 0);
    }
    // The white end of the blend lies at the bottom of the image: the red
    // channel falls off toward the sky-blue top.
    let top_middle = pixels[1];
    let bottom_middle = pixels[7];
    assert!(bottom_middle.x() > top_middle.x());
}

#[test]
fn test_depth_zero_renders_black() {
    let mut world = HittableList::new();
    world.add(Sphere::new(Point3::new(0, 0, fx(-1)), SCALE / 2, gray()));
    let mut camera = Camera::default();
    camera.aspect_ratio = SCALE;
    camera.image_width = 4;
    camera.num_samples_per_pixel = 2;
    camera.max_depth = 0;
    camera.focus_dist = fx(1);
    let pixels = camera.render(&world, 99);
    assert_eq!(pixels.len(), 16);
    for p in &pixels {
        assert_eq!(*p, Vec3::zeros());
    }
}

#[test]
fn test_render_is_reproducible_for_a_fixed_seed() {
    let mut world = HittableList::new();
    world.add(Sphere::new(Point3::new(0, 0, fx(-1)), SCALE / 2, gray()));
    world.add(Sphere::new(
        Point3::new(0, fx(-100), 0),
        fx(99),
        Material::Metal(Metal { albedo: Vec3::new(fx(1), fx(1), fx(1)) }),
    ));
    let mut camera = Camera::default();
    camera.aspect_ratio = SCALE;
    camera.image_width = 4;
    camera.num_samples_per_pixel = 3;
    camera.max_depth = 4;
    camera.focus_dist = fx(1);
    let first = camera.render_ppm(&world, 1234);
    let second = camera.render_ppm(&world, 1234);
    assert_eq!(first, second);
    let other_seed = camera.render_ppm(&world, 1235);
    assert_ne!(first, other_seed);
}

#[test]
fn test_write_color() {
    let pixel = Vec3::new(fx(255), fx(255), fx(255));
    let mut out: Vec<u8> = Vec::new();
    push_pixel_line(&mut out, &pixel, 1);
    assert_eq!(out, b"255 255 255\n".to_vec());
}

#[test]
fn test_channel_byte_values() {
    // A quarter-intensity channel gamma-corrects to one half: 128.
    assert_eq!(channel_byte(SCALE / 4, 1), 128);
    assert_eq!(channel_byte(SCALE, 1), 255);
    assert_eq!(channel_byte(0, 1), 0);
    // Averaging over four samples of full intensity.
    assert_eq!(channel_byte(4 * SCALE, 4), 255);
}

#[test]
fn test_gradient_image_bytes() {
    let bytes = gradient_image_bytes(2, 2);
    assert_eq!(bytes, b"P3\n2 2\n255\n0 0 0\n181 0 0\n0 181 0\n181 181 0\n".to_vec());
}

#[test]
fn test_interval_contains_surrounds_clamp() {
    let i = Interval::new(fx(-1), fx(1));
    assert!(i.contains(fx(1)));
    assert!(!i.surrounds(fx(1)));
    assert!(i.surrounds(0));
    assert!(!i.contains(fx(2)));
    assert_eq!(i.clamp(fx(2)), fx(1));
    assert_eq!(i.clamp(fx(-2)), fx(-1));
    assert_eq!(i.clamp(5), 5);
    let all = Interval::default();
    assert!(all.contains(fx(-100000)));
}

#[test]
fn test_hit_sphere_root() {
    let ray = Ray::new(Point3::new(0, 0, 0), Vec3::new(0, 0, fx(-1)));
    let t = hit_sphere(Point3::new(0, 0, fx(-3)), fx(1), &ray);
    assert_eq!(t, fx(2));
    let miss = hit_sphere(Point3::new(0, 0, fx(-3)), fx(1), &Ray::new(
        Point3::new(0, 0, 0),
        Vec3::new(0, fx(1), 0),
    ));
    assert_eq!(miss, -SCALE);
}

#[test]
fn test_demo_ray_color_background() {
    // A ray straight up sees the pure sky-blue end of the gradient.
    let ray = Ray::new(Point3::new(0, 0, 0), Vec3::new(0, fx(1), 0));
    let color = ray_color(&ray);
    assert_eq!(color, Vec3::new(SCALE / 2, 45875, SCALE));
}

#[test]
fn test_material_presets_and_random_draws() {
    let presets = material_presets();
    assert_eq!(presets.len(), 6);
    assert_eq!(presets[5], Material::Dielectric(Dielectric { refraction_index: 98304 }));
    let mut rng = RandomSource::new(3);
    for _ in 0..16 {
        let m = random_material_from_presets(&mut rng);
        assert!(presets.contains(&m));
        let r = random_static_material(&mut rng);
        assert!(matches!(r, Material::Lambertian(_) | Material::Metal(_)));
        let s = Sphere::random(&mut rng);
        assert!(s.radius > 0 && s.radius <= SCALE);
    }
}

#[test]
fn test_color_array_round_trip() {
    let c = Vec3::new_const(fx(1), fx(2), fx(3));
    let arr = c.to_array();
    assert_eq!(arr, [fx(1), fx(2), fx(3)]);
    let back = Vec3::from_slice(&arr);
    assert_eq!(back, c);
    assert_eq!(Vec3::black(), Vec3::zeros());
    assert_eq!(Vec3::white(), Vec3::ones());
}

#[test]
fn test_reflect_flips_normal_component() {
    let d = Vec3::new(fx(3), fx(-2), fx(5));
    let n = Vec3::new(0, fx(1), 0);
    let r = d.reflect(&n);
    assert_eq!(r, Vec3::new(fx(3), fx(2), fx(5)));
    // The component along the normal flipped exactly; the plane of
    // incidence kept the others.
    assert_eq!(r.dot(&n), -d.dot(&n));
}

#[test]
fn test_default_camera_is_initialized() {
    let camera = Camera::default();
    assert_eq!(camera.image_width, 100);
    assert_eq!(camera.height(), 100);
    assert_eq!(camera.center, Point3::new(0, 0, 0));
    // Looking down the negative depth axis with a level horizon.
    assert_eq!(camera.w, Vec3::new(0, 0, fx(1)));
    assert_eq!(camera.u, Vec3::new(fx(1), 0, 0));
    assert_eq!(camera.v, Vec3::new(0, fx(1), 0));
}

#[test]
fn test_degrees_and_tangent() {
    let right_angle_half = degrees_to_radians(fx(45));
    // Forty-five degrees is about 0.7854 radians.
    assert!((right_angle_half - 51471).abs() <= 16);
    // Its tangent is one, within the series' rounding.
    assert!((tan_fx(right_angle_half) - fx(1)).abs() <= 32);
}

#[test]
fn test_random_source_is_deterministic() {
    let mut a = RandomSource::new(42);
    let mut b = RandomSource::new(42);
    for _ in 0..10 {
        assert_eq!(a.next_raw(), b.next_raw());
    }
    let lo = fx(-1);
    let hi = fx(1);
    for _ in 0..10 {
        let v = a.in_range(lo, hi);
        assert!(lo <= v && v < hi);
    }
}
