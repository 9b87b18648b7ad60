//! The camera and the path-tracing pipeline: derive a projection basis from
//! the configuration, cast jittered rays per pixel, integrate radiance
//! recursively along each bounce path, and collect accumulated colors into
//! a row-major buffer whose contents are a function of configuration, scene
//! and seed alone.
use vstd::prelude::*;
use crate::color::Color;
use crate::hittable::Hittable;
use crate::interval::Interval;
use crate::material::spec_material_scatter;
use crate::ppm::{ppm_image, spec_ppm_image};
use crate::ray::{Ray, ray_ok};
use crate::rng::{RandomSource, rng_next, rng_in_range};
use crate::utils::{degrees_to_radians, tan_fx, spec_degrees_to_radians, spec_tan};
use crate::vec3::{Vec3, Point3, vec_ok, spec_add, spec_sub, spec_scale, spec_div, spec_cross,
    spec_normalize, spec_zero, spec_unit_disk, BALL_TRIES};
use crate::fx::{SCALE, HALF_SCALE, FX_MAX, fx_add, fx_sub, fx_mul, fx_div, fx_of_int, tdiv,
    add_fx, sub_fx, neg_fx, mul_fx, div_fx, int_to_fx};

verus! {

/// The smallest parameter a bounced ray accepts, keeping it from
/// re-hitting the surface it just left.
pub const T_MIN_HIT: i64 = 66;

/// The camera: the configuration a caller sets, and the projection state
/// derived from it by `initialize`. The derived fields are stale whenever
/// the configuration changes until `initialize` runs again.
#[derive(Clone, Copy, PartialEq, Eq, Structural, Debug)]
pub struct Camera {
    pub aspect_ratio: i64,
    pub image_width: usize,
    pub num_samples_per_pixel: i64,
    pub max_depth: i64,
    pub vfov: i64,
    pub lookfrom: Point3,
    pub lookat: Point3,
    pub v_up: Vec3,
    pub defocus_angle: i64,
    pub focus_dist: i64,
    pub image_height: usize,
    pub center: Point3,
    pub pixel_delta_u: Vec3,
    pub pixel_delta_v: Vec3,
    pub pixel00_location: Vec3,
    pub u: Vec3,
    pub v: Vec3,
    pub w: Vec3,
    pub defocus_disk_u: Vec3,
    pub defocus_disk_v: Vec3,
}

/// Whether the configuration fields are usable: positive aspect ratio and
/// focus distance, a bounded image width, at least one sample, a bounded
/// bounce budget, a field of view and defocus angle inside `[0, 180)`
/// degrees (the field of view strictly positive), and representable
/// vectors.
pub open spec fn camera_config_ok(c: Camera) -> bool {
    &&& 0 < c.aspect_ratio <= FX_MAX
    &&& 1 <= c.image_width <= 8192
    &&& 1 <= c.num_samples_per_pixel <= 0x4000_0000
    &&& 0 <= c.max_depth <= 1024
    &&& 0 < c.vfov < 11796480
    &&& vec_ok(c.lookfrom)
    &&& vec_ok(c.lookat)
    &&& vec_ok(c.v_up)
    &&& 0 <= c.defocus_angle < 11796480
    &&& 0 < c.focus_dist <= FX_MAX
}

/// Whether the camera is ready to cast rays: a usable configuration with
/// consistent, representable derived state.
pub open spec fn camera_wf(c: Camera) -> bool {
    &&& camera_config_ok(c)
    &&& 1 <= c.image_height <= 0x2000_0000
    &&& vec_ok(c.center)
    &&& vec_ok(c.pixel_delta_u)
    &&& vec_ok(c.pixel_delta_v)
    &&& vec_ok(c.pixel00_location)
    &&& vec_ok(c.u)
    &&& vec_ok(c.v)
    &&& vec_ok(c.w)
    &&& vec_ok(c.defocus_disk_u)
    &&& vec_ok(c.defocus_disk_v)
}

/// The derived image height: the width over the aspect ratio, truncated,
/// but at least one row.
pub open spec fn spec_image_height(c: Camera) -> int {
    let ih = tdiv(c.image_width * SCALE, c.aspect_ratio as int);
    if ih < 1 {
        1
    } else {
        ih
    }
}

/// The camera after `initialize`: the configuration unchanged, every
/// derived field recomputed from it.
pub open spec fn spec_initialize(c: Camera) -> Camera {
    let ih = spec_image_height(c);
    let theta = spec_degrees_to_radians(c.vfov as int);
    let h = spec_tan(fx_mul(HALF_SCALE as int, theta));
    let viewport_height = fx_mul(fx_mul(fx_of_int(2), h), c.focus_dist as int);
    let viewport_width = fx_mul(
        fx_div(fx_of_int(c.image_width as int), fx_of_int(ih)),
        viewport_height,
    );
    let wv = spec_normalize(spec_sub(c.lookfrom, c.lookat));
    let uv = spec_normalize(spec_cross(c.v_up, wv));
    let vv = spec_cross(wv, uv);
    let viewport_u = spec_scale(uv, viewport_width);
    let viewport_v = spec_scale(vv, -viewport_height);
    let pdu = spec_div(viewport_u, fx_of_int(c.image_width as int));
    let pdv = spec_div(viewport_v, fx_of_int(ih));
    let upper_left = spec_sub(
        spec_sub(
            spec_sub(c.lookfrom, spec_scale(wv, c.focus_dist as int)),
            spec_div(viewport_u, fx_of_int(2)),
        ),
        spec_div(viewport_v, fx_of_int(2)),
    );
    let pixel00 = spec_add(upper_left, spec_scale(spec_add(pdu, pdv), HALF_SCALE as int));
    let defocus_radius = fx_mul(
        c.focus_dist as int,
        spec_tan(spec_degrees_to_radians(fx_div(c.defocus_angle as int, fx_of_int(2)))),
    );
    Camera {
        image_height: ih as usize,
        center: c.lookfrom,
        pixel_delta_u: pdu,
        pixel_delta_v: pdv,
        pixel00_location: pixel00,
        u: uv,
        v: vv,
        w: wv,
        defocus_disk_u: spec_scale(uv, defocus_radius),
        defocus_disk_v: spec_scale(vv, defocus_radius),
        ..c
    }
}

/// The configuration `Camera::default` starts from: a square hundred-pixel
/// image, a hundred samples, ten bounces, a ninety-degree field of view
/// looking down the negative depth axis, no defocus.
pub open spec fn default_config() -> Camera {
    Camera {
        aspect_ratio: SCALE,
        image_width: 100,
        num_samples_per_pixel: 100,
        max_depth: 10,
        vfov: 5898240,
        lookfrom: spec_zero(),
        lookat: Vec3 { x: 0, y: 0, z: (-SCALE) as i64 },
        v_up: Vec3 { x: 0, y: SCALE, z: 0 },
        defocus_angle: 0,
        focus_dist: 655360,
        image_height: 100,
        center: spec_zero(),
        pixel_delta_u: spec_zero(),
        pixel_delta_v: spec_zero(),
        pixel00_location: spec_zero(),
        u: spec_zero(),
        v: spec_zero(),
        w: spec_zero(),
        defocus_disk_u: spec_zero(),
        defocus_disk_v: spec_zero(),
    }
}

/// The jitter within one pixel drawn from state `s`: up to half a pixel
/// step in each pixel-plane direction.
pub open spec fn spec_sample_square(c: Camera, s: u64) -> (Vec3, u64) {
    let jx = rng_in_range(s, -HALF_SCALE as int, HALF_SCALE as int);
    let s1 = rng_next(s);
    let jy = rng_in_range(s1, -HALF_SCALE as int, HALF_SCALE as int);
    let s2 = rng_next(s1);
    (spec_add(spec_scale(c.pixel_delta_u, jx), spec_scale(c.pixel_delta_v, jy)), s2)
}

/// The ray origin drawn from the defocus disk from state `s`.
pub open spec fn spec_defocus_sample(c: Camera, s: u64) -> (Vec3, u64) {
    let (p, s2) = spec_unit_disk(s, BALL_TRIES as nat);
    (
        spec_add(
            spec_add(c.center, spec_scale(c.defocus_disk_u, p.x as int)),
            spec_scale(c.defocus_disk_v, p.y as int),
        ),
        s2,
    )
}

/// The sampled ray for pixel `(x, y)` drawn from state `s`: the jittered
/// pixel point, aimed from the camera center or from the defocus disk.
#[verifier::opaque]
pub open spec fn spec_get_ray(c: Camera, x: int, y: int, s: u64) -> (Ray, u64) {
    let pc0 = spec_add(
        spec_add(c.pixel00_location, spec_scale(c.pixel_delta_u, fx_of_int(x))),
        spec_scale(c.pixel_delta_v, fx_of_int(y)),
    );
    let (j, s2) = spec_sample_square(c, s);
    let pc = spec_add(pc0, j);
    if c.defocus_angle <= 0 {
        (Ray { origin: c.center, direction: spec_sub(pc, c.center) }, s2)
    } else {
        let (origin, s3) = spec_defocus_sample(c, s2);
        (Ray { origin, direction: spec_sub(pc, origin) }, s3)
    }
}

/// The sky a missed ray reports: a vertical blend from white to blue by
/// the unit direction's height.
pub open spec fn spec_background(ray: Ray) -> Vec3 {
    let unit_direction = spec_normalize(ray.direction);
    let a = fx_mul(HALF_SCALE as int, fx_add(unit_direction.y as int, SCALE as int));
    spec_add(
        spec_scale(Vec3 { x: SCALE, y: SCALE, z: SCALE }, fx_sub(SCALE as int, a)),
        spec_scale(Vec3 { x: HALF_SCALE, y: 45875, z: SCALE }, a),
    )
}

/// The radiance integrated along `ray` from state `s`: black once the
/// bounce budget is spent, the background on a miss, and otherwise the
/// scattered color attenuated, or black when the material absorbs.
#[verifier::opaque]
pub open spec fn spec_ray_color<H: Hittable>(world: &H, ray: Ray, depth: int, s: u64) -> (
    Vec3,
    u64,
)
    decreases depth,
{
    if depth <= 0 {
        (spec_zero(), s)
    } else {
        match world.spec_hit(ray, Interval { lower: T_MIN_HIT, upper: FX_MAX }) {
            Some(rec) => {
                let (scattered, s2) = spec_material_scatter(rec.material, ray, rec, s);
                match scattered {
                    Some(pair) => {
                        let (c, s3) = spec_ray_color(world, pair.1, depth - 1, s2);
                        (crate::vec3::spec_mul(pair.0, c), s3)
                    },
                    None => (spec_zero(), s2),
                }
            },
            None => (spec_background(ray), s),
        }
    }
}

/// The accumulated color after `k` more samples of pixel `(x, y)` on top
/// of `acc`, from state `s`.
pub open spec fn spec_sample_loop<H: Hittable>(
    c: Camera,
    world: &H,
    x: int,
    y: int,
    k: nat,
    acc: Vec3,
    s: u64,
) -> (Vec3, u64)
    decreases k,
{
    if k == 0 {
        (acc, s)
    } else {
        let (ray, s1) = spec_get_ray(c, x, y, s);
        let (color, s2) = spec_ray_color(world, ray, c.max_depth as int, s1);
        spec_sample_loop(c, world, x, y, (k - 1) as nat, spec_add(acc, color), s2)
    }
}

/// The row `y` extended from column `x` on, on top of the pixels in `acc`,
/// from state `s`.
pub open spec fn spec_col_loop<H: Hittable>(
    c: Camera,
    world: &H,
    y: int,
    x: int,
    acc: Seq<Vec3>,
    s: u64,
) -> (Seq<Vec3>, u64)
    decreases c.image_width - x,
{
    if x < 0 || x >= c.image_width {
        (acc, s)
    } else {
        let (pixel, s2) = spec_sample_loop(
            c,
            world,
            x,
            y,
            c.num_samples_per_pixel as nat,
            spec_zero(),
            s,
        );
        spec_col_loop(c, world, y, x + 1, acc.push(pixel), s2)
    }
}

/// The accumulated colors of row `y`, from state `s`.
pub open spec fn spec_render_line<H: Hittable>(c: Camera, world: &H, y: int, s: u64) -> (
    Seq<Vec3>,
    u64,
) {
    spec_col_loop(c, world, y, 0, Seq::empty(), s)
}

/// The seed row `y` starts from: the render seed offset by a fixed odd
/// stride per row, wrapped to a machine word.
pub open spec fn spec_row_seed(seed: u64, y: int) -> u64 {
    ((seed + y * 0x9E3779B97F4A7C15) % 0x1_0000_0000_0000_0000) as u64
}

/// The image from row `y` on, on top of the rows in `acc`: each row is a
/// function of the render seed and its own index alone.
pub open spec fn spec_render_rows<H: Hittable>(
    c: Camera,
    world: &H,
    seed: u64,
    y: int,
    acc: Seq<Vec3>,
) -> Seq<Vec3>
    decreases c.image_height - y,
{
    if y < 0 || y >= c.image_height {
        acc
    } else {
        spec_render_rows(
            c,
            world,
            seed,
            y + 1,
            acc + spec_render_line(c, world, y, spec_row_seed(seed, y)).0,
        )
    }
}

/// The whole accumulated image, row-major, as a function of camera, scene
/// and seed.
pub open spec fn spec_render<H: Hittable>(c: Camera, world: &H, seed: u64) -> Seq<Vec3> {
    spec_render_rows(c, world, seed, 0, Seq::empty())
}

impl Camera {
    /// Recompute every derived field from the configuration.
    pub fn initialize(&mut self)
        requires
            camera_config_ok(*old(self)),
        ensures
            *final (self) == spec_initialize(*old(self)),
            camera_wf(*final (self)),
    {
        let wide: u128 = (self.image_width as u128) * (SCALE as u128);
        let ihw: u128 = wide / (self.aspect_ratio as u128);
        proof {
            assert(ihw <= wide) by (nonlinear_arith)
                requires
                    ihw == wide / (self.aspect_ratio as u128),
                    self.aspect_ratio >= 1,
                    wide >= 0,
            ;
            assert(ihw == tdiv(self.image_width * SCALE, self.aspect_ratio as int));
        }
        let image_height: usize = if ihw < 1 {
            1
        } else {
            ihw as usize
        };
        self.image_height = image_height;

        let theta = degrees_to_radians(self.vfov);
        let h = tan_fx(mul_fx(HALF_SCALE, theta));
        let viewport_height = mul_fx(mul_fx(int_to_fx(2), h), self.focus_dist);
        let viewport_width = mul_fx(
            div_fx(int_to_fx(self.image_width as i64), int_to_fx(image_height as i64)),
            viewport_height,
        );

        self.center = self.lookfrom;

        // Define camera basis vectors
        self.w = self.lookfrom.sub(self.lookat).normalize();
        self.u = self.v_up.cross(&self.w).normalize();
        self.v = self.w.cross(&self.u);

        let viewport_u = self.u.scale(viewport_width);
        let viewport_v = self.v.scale(neg_fx(viewport_height));

        self.pixel_delta_u = viewport_u.div(int_to_fx(self.image_width as i64));
        self.pixel_delta_v = viewport_v.div(int_to_fx(image_height as i64));

        // Calculate the location of the upper left pixel.
        let viewport_upper_left_corner = self.center.sub(self.w.scale(self.focus_dist)).sub(
            viewport_u.div(int_to_fx(2)),
        ).sub(viewport_v.div(int_to_fx(2)));

        self.pixel00_location = viewport_upper_left_corner.add(
            self.pixel_delta_u.add(self.pixel_delta_v).scale(HALF_SCALE),
        );

        // Calculate the defocus disk radii
        let defocus_radius = mul_fx(
            self.focus_dist,
            tan_fx(degrees_to_radians(div_fx(self.defocus_angle, int_to_fx(2)))),
        );
        self.defocus_disk_u = self.u.scale(defocus_radius);
        self.defocus_disk_v = self.v.scale(defocus_radius);
    }

    /// The derived number of pixel rows.
    pub fn height(&self) -> (r: usize)
        ensures
            r == self.image_height,
    {
        self.image_height
    }

    /// A ray origin drawn from the defocus disk.
    fn sample_from_defocus_disk(&self, rng: &mut RandomSource) -> (r: Vec3)
        requires
            camera_wf(*self),
        ensures
            (r, final (rng).state) == spec_defocus_sample(*self, old(rng).state),
            vec_ok(r),
    {
        let p = Vec3::random_in_unit_disk(rng);
        self.center.add(self.defocus_disk_u.scale(p.x())).add(self.defocus_disk_v.scale(p.y()))
    }

    /// The jitter within one pixel: up to half a pixel step in each
    /// pixel-plane direction.
    fn sample_pixel_from_square(&self, rng: &mut RandomSource) -> (r: Vec3)
        requires
            camera_wf(*self),
        ensures
            (r, final (rng).state) == spec_sample_square(*self, old(rng).state),
            vec_ok(r),
    {
        let x = rng.in_range(-HALF_SCALE, HALF_SCALE);
        let y = rng.in_range(-HALF_SCALE, HALF_SCALE);

        self.pixel_delta_u.scale(x).add(self.pixel_delta_v.scale(y))
    }

    /// The sampled ray for pixel `(x, y)`: jittered within the pixel, and
    /// aimed from the camera center, or from the defocus disk when depth
    /// of field is on.
    fn get_ray(&self, x: usize, y: usize, rng: &mut RandomSource) -> (r: Ray)
        requires
            camera_wf(*self),
            x < self.image_width,
            y < self.image_height,
        ensures
            (r, final (rng).state) == spec_get_ray(*self, x as int, y as int, old(rng).state),
            ray_ok(r),
    {
        proof {
            reveal(spec_get_ray);
        }
        let mut pixel_center = self.pixel00_location.add(
            self.pixel_delta_u.scale(int_to_fx(x as i64)),
        ).add(self.pixel_delta_v.scale(int_to_fx(y as i64)));

        pixel_center = pixel_center.add(self.sample_pixel_from_square(rng));
        let ray_origin = if self.defocus_angle <= 0 {
            self.center
        } else {
            self.sample_from_defocus_disk(rng)
        };
        let ray_direction = pixel_center.sub(ray_origin);
        Ray::new(ray_origin, ray_direction)
    }

    /// Integrate the radiance along `ray`: black once the bounce budget is
    /// spent, the sky gradient on a miss, else the scattered bounce
    /// attenuated by the material.
    pub fn ray_color<H: Hittable>(
        &self,
        rng: &mut RandomSource,
        ray: &Ray,
        world: &H,
        depth: i64,
    ) -> (r: Color)
        requires
            world.wf(),
            ray_ok(*ray),
        ensures
            (r, final (rng).state) == spec_ray_color(world, *ray, depth as int, old(rng).state),
            vec_ok(r),
        decreases depth,
    {
        proof {
            reveal(spec_ray_color);
        }
        if depth <= 0 {
            // return black
            return Color::new_const(0, 0, 0);
        }
        if let Some(hit_record) = world.hit(ray, Interval::new(T_MIN_HIT, FX_MAX)) {
            if let Some(pair) = hit_record.material.scatter(rng, ray, &hit_record) {
                let (attenuation, scattered_ray) = pair;
                return attenuation.mul(self.ray_color(rng, &scattered_ray, world, depth - 1));
            }
            // If no scatter then return black
            return Color::new_const(0, 0, 0);
        }

        // Background color
        let unit_direction = ray.direction.normalize();
        let a = mul_fx(HALF_SCALE, add_fx(unit_direction.y, SCALE));
        Color::new_const(SCALE, SCALE, SCALE).scale(sub_fx(SCALE, a)).add(
            Color::new_const(HALF_SCALE, 45875, SCALE).scale(a),
        )
    }

    /// Render one row: every column's accumulated color over the sample
    /// budget, a pure function of the row index and the random source.
    #[verifier::rlimit(100)]
    pub fn render_line<H: Hittable>(
        &self,
        world: &H,
        row_idx: usize,
        rng: &mut RandomSource,
    ) -> (r: Vec<Color>)
        requires
            camera_wf(*self),
            world.wf(),
            row_idx < self.image_height,
        ensures
            (r@, final (rng).state) == spec_render_line(
                *self,
                world,
                row_idx as int,
                old(rng).state,
            ),
            r@.len() == self.image_width,
            forall|i: int| 0 <= i < r@.len() ==> vec_ok(#[trigger] r@[i]),
    {
        let ghost s0 = rng.state;
        let mut row: Vec<Color> = Vec::new();
        let mut x: usize = 0;
        while x < self.image_width
            invariant
                camera_wf(*self),
                world.wf(),
                row_idx < self.image_height,
                0 <= x <= self.image_width,
                row@.len() == x,
                forall|i: int| 0 <= i < row@.len() ==> vec_ok(#[trigger] row@[i]),
                spec_col_loop(*self, world, row_idx as int, x as int, row@, rng.state)
                    == spec_render_line(*self, world, row_idx as int, s0),
            decreases self.image_width - x,
        {
            let ghost s_px = rng.state;
            let mut color = Color::new_const(0, 0, 0);
            let mut sample: i64 = 0;
            while sample < self.num_samples_per_pixel
                invariant
                    camera_wf(*self),
                    world.wf(),
                    row_idx < self.image_height,
                    x < self.image_width,
                    0 <= sample <= self.num_samples_per_pixel,
                    vec_ok(color),
                    spec_sample_loop(
                        *self,
                        world,
                        x as int,
                        row_idx as int,
                        (self.num_samples_per_pixel - sample) as nat,
                        color,
                        rng.state,
                    ) == spec_sample_loop(
                        *self,
                        world,
                        x as int,
                        row_idx as int,
                        self.num_samples_per_pixel as nat,
                        spec_zero(),
                        s_px,
                    ),
                decreases self.num_samples_per_pixel - sample,
            {
                let ray = self.get_ray(x, row_idx, rng);
                color = color.add(self.ray_color(rng, &ray, world, self.max_depth));
                sample = sample + 1;
            }
            row.push(color);
            x = x + 1;
        }
        row
    }

    /// Render the whole image into a row-major buffer of accumulated
    /// colors; each row draws from its own source seeded from `seed` and
    /// the row index, so the buffer is a function of configuration, scene
    /// and seed alone.
    pub fn render<H: Hittable>(&mut self, world: &H, seed: u64) -> (r: Vec<Color>)
        requires
            camera_config_ok(*old(self)),
            world.wf(),
        ensures
            *final (self) == spec_initialize(*old(self)),
            camera_wf(*final (self)),
            r@ == spec_render(spec_initialize(*old(self)), world, seed),
            r@.len() == spec_initialize(*old(self)).image_height * spec_initialize(
                *old(self),
            ).image_width,
            forall|i: int| 0 <= i < r@.len() ==> vec_ok(#[trigger] r@[i]),
    {
        self.initialize();
        let mut flat_image: Vec<Color> = Vec::new();
        let mut y: usize = 0;
        while y < self.image_height
            invariant
                camera_wf(*self),
                world.wf(),
                0 <= y <= self.image_height,
                flat_image@.len() == y * self.image_width,
                forall|i: int| 0 <= i < flat_image@.len() ==> vec_ok(#[trigger] flat_image@[i]),
                spec_render_rows(*self, world, seed, y as int, flat_image@) == spec_render(
                    *self,
                    world,
                    seed,
                ),
            decreases self.image_height - y,
        {
            let mut rng = RandomSource::new(row_seed(seed, y as u64));
            let row = self.render_line(world, y, &mut rng);
            let ghost pre = flat_image@;
            let mut j: usize = 0;
            while j < row.len()
                invariant
                    0 <= j <= row@.len(),
                    flat_image@ == pre + row@.subrange(0, j as int),
                decreases row@.len() - j,
            {
                flat_image.push(row[j]);
                proof {
                    assert(pre + row@.subrange(0, j as int) + seq![row@[j as int]] =~= pre
                        + row@.subrange(0, j + 1 as int));
                }
                j = j + 1;
            }
            proof {
                assert(flat_image@ =~= pre + row@);
                assert((y + 1) * self.image_width == y * self.image_width + self.image_width)
                    by (nonlinear_arith)
                ;
            }
            y = y + 1;
        }
        flat_image
    }

    /// Render and serialize the whole image as a textual pixmap, byte for
    /// byte a function of configuration, scene and seed.
    pub fn render_ppm<H: Hittable>(&mut self, world: &H, seed: u64) -> (r: Vec<u8>)
        requires
            camera_config_ok(*old(self)),
            world.wf(),
        ensures
            *final (self) == spec_initialize(*old(self)),
            r@ == spec_ppm_image(
                spec_initialize(*old(self)).image_width as int,
                spec_initialize(*old(self)).image_height as int,
                spec_render(spec_initialize(*old(self)), world, seed),
                spec_initialize(*old(self)).num_samples_per_pixel as int,
            ),
    {
        let pixels = self.render(world, seed);
        ppm_image(
            self.image_width as u64,
            self.image_height as u64,
            &pixels,
            self.num_samples_per_pixel,
        )
    }
}

/// The seed row `y` draws from under the render seed.
pub fn row_seed(seed: u64, y: u64) -> (r: u64)
    ensures
        r == spec_row_seed(seed, y as int),
{
    proof {
        assert((y as int) * 0x9E3779B97F4A7C15int
            <= 0xFFFF_FFFF_FFFF_FFFFint * 0x9E3779B97F4A7C15int) by (nonlinear_arith)
            requires
                0 <= y as int <= 0xFFFF_FFFF_FFFF_FFFFint,
        ;
    }
    let p: u128 = (seed as u128) + (y as u128) * 0x9E3779B97F4A7C15u128;
    (p % 0x1_0000_0000_0000_0000u128) as u64
}

/// A spent bounce budget yields black at once, before any intersection
/// test: integrating with no depth left returns the zero color and leaves
/// the random source untouched, whatever the scene holds.
pub proof fn lemma_depth_exhausted_black<H: Hittable>(world: &H, ray: Ray, depth: int, s: u64)
    requires
        depth <= 0,
    ensures
        spec_ray_color(world, ray, depth, s) == (spec_zero(), s),
{
    reveal(spec_ray_color);
}

/// Against an empty scene no intersection logic engages: every cast ray
/// with bounce budget left reports exactly the background gradient, and
/// draws nothing random.
pub proof fn lemma_empty_scene_background(
    world: &crate::hittable_list::HittableList,
    ray: Ray,
    depth: int,
    s: u64,
)
    requires
        world.objects@.len() == 0,
        depth >= 1,
    ensures
        spec_ray_color(world, ray, depth, s) == (spec_background(ray), s),
{
    reveal(spec_ray_color);
    assert(world.spec_hit(ray, Interval { lower: T_MIN_HIT, upper: FX_MAX }) is None);
}

/// Every sample of a pixel is black when the bounce budget is zero, so the
/// accumulated pixel equals the accumulator it started from.
#[verifier::rlimit(60)]
proof fn lemma_sample_loop_black<H: Hittable>(
    c: Camera,
    world: &H,
    x: int,
    y: int,
    k: nat,
    acc: Vec3,
    s: u64,
)
    requires
        c.max_depth <= 0,
        vec_ok(acc),
    ensures
        spec_sample_loop(c, world, x, y, k, acc, s).0 == acc,
    decreases k,
{
    if k != 0 {
        let (ray, s1) = spec_get_ray(c, x, y, s);
        let (color, s2) = spec_ray_color(world, ray, c.max_depth as int, s1);
        lemma_depth_exhausted_black(world, ray, c.max_depth as int, s1);
        assert(color == spec_zero());
        assert(spec_add(acc, color) == acc) by {
            assert(fx_add(acc.x as int, 0) == acc.x as int);
            assert(fx_add(acc.y as int, 0) == acc.y as int);
            assert(fx_add(acc.z as int, 0) == acc.z as int);
        };
        assert(vec_ok(spec_add(acc, color)));
        lemma_sample_loop_black(c, world, x, y, (k - 1) as nat, spec_add(acc, color), s2);
    }
}

/// Every pixel a row adds under a zero bounce budget is black.
#[verifier::rlimit(60)]
proof fn lemma_col_loop_black<H: Hittable>(
    c: Camera,
    world: &H,
    y: int,
    x: int,
    acc: Seq<Vec3>,
    s: u64,
)
    requires
        c.max_depth <= 0,
        forall|i: int| 0 <= i < acc.len() ==> acc[i] == spec_zero(),
    ensures
        ({
            let row = spec_col_loop(c, world, y, x, acc, s).0;
            forall|i: int| 0 <= i < row.len() ==> row[i] == spec_zero()
        }),
    decreases c.image_width - x,
{
    if !(x < 0 || x >= c.image_width) {
        let (pixel, s2) = spec_sample_loop(
            c,
            world,
            x,
            y,
            c.num_samples_per_pixel as nat,
            spec_zero(),
            s,
        );
        lemma_sample_loop_black(c, world, x, y, c.num_samples_per_pixel as nat, spec_zero(), s);
        assert(pixel == spec_zero());
        let acc2 = acc.push(pixel);
        assert(forall|i: int| 0 <= i < acc2.len() ==> acc2[i] == spec_zero());
        lemma_col_loop_black(c, world, y, x + 1, acc2, s2);
        assert(spec_col_loop(c, world, y, x, acc, s).0 == spec_col_loop(
            c,
            world,
            y,
            x + 1,
            acc2,
            s2,
        ).0);
    }
}

/// Every pixel the row recursion adds under a zero bounce budget is black.
#[verifier::rlimit(60)]
proof fn lemma_render_rows_black<H: Hittable>(
    c: Camera,
    world: &H,
    seed: u64,
    y: int,
    acc: Seq<Vec3>,
)
    requires
        c.max_depth <= 0,
        forall|i: int| 0 <= i < acc.len() ==> acc[i] == spec_zero(),
    ensures
        ({
            let img = spec_render_rows(c, world, seed, y, acc);
            forall|i: int| 0 <= i < img.len() ==> img[i] == spec_zero()
        }),
    decreases c.image_height - y,
{
    if !(y < 0 || y >= c.image_height) {
        let row = spec_render_line(c, world, y, spec_row_seed(seed, y)).0;
        lemma_col_loop_black(c, world, y, 0, Seq::empty(), spec_row_seed(seed, y));
        let acc2 = acc + row;
        assert(forall|i: int| 0 <= i < acc2.len() ==> acc2[i] == spec_zero());
        lemma_render_rows_black(c, world, seed, y + 1, acc2);
        assert(spec_render_rows(c, world, seed, y, acc) == spec_render_rows(
            c,
            world,
            seed,
            y + 1,
            acc2,
        ));
    }
}

/// Against an empty scene a single-sample pixel is exactly the background
/// gradient of its own jittered ray: no intersection logic engages
/// anywhere between the cast and the finished pixel.
pub proof fn lemma_empty_scene_pixel(
    c: Camera,
    world: &crate::hittable_list::HittableList,
    x: int,
    y: int,
    s: u64,
)
    requires
        world.objects@.len() == 0,
        c.num_samples_per_pixel == 1,
        c.max_depth >= 1,
    ensures
        spec_sample_loop(c, world, x, y, 1, spec_zero(), s).0 == spec_background(
            spec_get_ray(c, x, y, s).0,
        ),
{
    reveal_with_fuel(spec_sample_loop, 2);
    let (ray, s1) = spec_get_ray(c, x, y, s);
    lemma_empty_scene_background(world, ray, c.max_depth as int, s1);
    let bg = spec_background(ray);
    assert(vec_ok(bg));
    assert(spec_add(spec_zero(), bg) == bg);
    assert(spec_sample_loop(c, world, x, y, 1, spec_zero(), s) == spec_sample_loop(
        c,
        world,
        x,
        y,
        0,
        spec_add(spec_zero(), bg),
        s1,
    ));
}

/// A render whose bounce budget is zero is pure black everywhere,
/// whatever the scene holds: the recursion cap is enforced before the
/// first intersection test.
pub proof fn lemma_render_black_at_depth_zero<H: Hittable>(c: Camera, world: &H, seed: u64)
    requires
        c.max_depth <= 0,
    ensures
        forall|i: int|
            0 <= i < spec_render(c, world, seed).len() ==> spec_render(c, world, seed)[i]
                == spec_zero(),
{
    lemma_render_rows_black(c, world, seed, 0, Seq::empty());
}

impl Default for Camera {
    /// The default camera, derived state included.
    fn default() -> (r: Camera)
        ensures
            r == spec_initialize(default_config()),
            camera_wf(r),
    {
        let mut camera = Camera {
            aspect_ratio: SCALE,
            image_width: 100,
            image_height: 100,
            num_samples_per_pixel: 100,
            max_depth: 10,
            vfov: 5898240,
            lookfrom: Point3::new(0, 0, 0),
            lookat: Point3::new(0, 0, -SCALE),
            v_up: Vec3::new(0, SCALE, 0),
            defocus_angle: 0,
            focus_dist: 655360,

            // These are derived by initialize
            center: Point3::new(0, 0, 0),
            pixel_delta_u: Vec3::new(0, 0, 0),
            pixel_delta_v: Vec3::new(0, 0, 0),
            pixel00_location: Vec3::new(0, 0, 0),

            u: Vec3::new(0, 0, 0),
            v: Vec3::new(0, 0, 0),
            w: Vec3::new(0, 0, 0),

            defocus_disk_u: Vec3::new(0, 0, 0),
            defocus_disk_v: Vec3::new(0, 0, 0),
        };
        camera.initialize();
        camera
    }
}

} // verus!
