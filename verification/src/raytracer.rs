//! The fixed scene — textured cube over a brown ground plane under one
//! directional and one ambient light — and the renderer that traces one
//! ray per pixel into an RGBA byte buffer.

use vstd::prelude::*;
use crate::fixed::SCALE;
use crate::fixed::COORD_MAX;
use crate::fixed::is_sqrt;
use crate::fixed::sqrt_of;
use crate::fixed::isqrt;
use crate::fixed::lemma_sqrt_of;
use crate::fixed::lemma_sqrt_exists;
use crate::fixed::lemma_div_trunc_le;
use crate::fixed::lemma_div_trunc_ge;
use crate::fixed::lemma_div_trunc_exact;
use crate::fixed::div_trunc;
use crate::vec3::Vector3;
use crate::vec3::v3;
use crate::vec3::s_within;
use crate::vec3::s_is_zero;
use crate::vec3::s_add;
use crate::vec3::s_sub;
use crate::vec3::s_neg;
use crate::vec3::s_scale;
use crate::vec3::s_cross;
use crate::vec3::s_normalize;
use crate::vec3::s_dot_wide;
use crate::vec3::lemma_scale_within;
use crate::rat::Rat;
use crate::rat::r_wf;
use crate::ray::Ray;
use crate::ray::ray_wf;
use crate::ray::HitRecord;
use crate::ray::hr_wf;
use crate::ray::color_wf;
use crate::cube::Cube;
use crate::cube::cube_wf;
use crate::cube::s_cube_hit;
use crate::cube::Plane;
use crate::cube::plane_wf;
use crate::cube::s_plane_hit;
use crate::light::DirectionalLight;
use crate::light::dl_wf;
use crate::light::s_diffuse;
use crate::light::AmbientLight;
use crate::light::al_wf;
use crate::light::s_ambient;
use crate::camera::Camera;
use crate::camera::cam_wf;
use crate::camera::s_get_ray;
use crate::camera::s_cam_forward;
use crate::texture::Texture;
use crate::texture::tex_wf;

verus! {

/// The lower search bound of every primary and shadow ray, a thousandth
/// of a unit, keeping a ray from re-hitting its own origin surface.
pub open spec fn s_t_epsilon() -> Rat {
    Rat { num: 1000, den: 1_000_000 }
}

pub struct Scene {
    pub cube: Cube,
    pub ground: Plane,
    pub directional_light: DirectionalLight,
    pub ambient_light: AmbientLight,
    pub background_color: Vector3,
}

pub open spec fn scene_wf(s: Scene) -> bool {
    &&& cube_wf(s.cube)
    &&& plane_wf(s.ground)
    &&& dl_wf(s.directional_light)
    &&& al_wf(s.ambient_light)
    &&& color_wf(s.background_color@)
}

/// The closest hit over both primitives: the cube is tested first and a
/// cube hit shrinks the search bound handed to the ground plane, which
/// then replaces it only when strictly closer — an exact tie keeps the
/// cube's record.
pub open spec fn s_scene_hit(s: Scene, r: Ray, t_min: Rat, t_max: Option<Rat>) -> Option<
    HitRecord,
> {
    match s_cube_hit(s.cube, r, t_min, t_max) {
        Option::Some(h1) => match s_plane_hit(s.ground, r, t_min, Option::Some(h1.t)) {
            Option::Some(h2) => if crate::rat::r_lt(h2.t, h1.t) {
                Option::Some(h2)
            } else {
                Option::Some(h1)
            },
            Option::None => Option::Some(h1),
        },
        Option::None => s_plane_hit(s.ground, r, t_min, t_max),
    }
}

/// The shadow probe: a ray nudged a thousandth of a unit toward the
/// light, tested against the cube alone — the ground casts no shadow.
pub open spec fn s_shadow_ray(point: (int, int, int), ld: (int, int, int)) -> Ray {
    Ray { origin: v3(s_add(point, s_scale(ld, 1000))), direction: v3(s_normalize(ld)) }
}

pub open spec fn s_is_in_shadow(s: Scene, point: (int, int, int), ld: (int, int, int)) -> bool {
    s_cube_hit(s.cube, s_shadow_ray(point, ld), s_t_epsilon(), Option::None) is Some
}

/// The shading of a hit: full ambient light plus the diffuse term, the
/// latter reduced to a tenth inside a shadow.
pub open spec fn s_lighting(s: Scene, h: HitRecord) -> (int, int, int) {
    let amb = s_ambient(s.ambient_light, h.material_color@);
    let dif = s_diffuse(s.directional_light, h.normal@, h.material_color@);
    let dif2 = if s_is_in_shadow(s, h.point@, s.directional_light.direction@) {
        s_scale(dif, 100_000)
    } else {
        dif
    };
    s_add(amb, dif2)
}

/// The color of one ray: the shaded nearest hit, or the background.
pub open spec fn s_trace(s: Scene, r: Ray) -> (int, int, int) {
    match s_scene_hit(s, r, s_t_epsilon(), Option::None) {
        Option::Some(h) => s_lighting(s, h),
        Option::None => s.background_color@,
    }
}

impl Scene {
    /// The fixed scene: a unit cube sitting on the ground plane, lit from
    /// the upper left, over an olive background. A decoded texture skins
    /// the cube; without one the cube is flat blue.
    pub fn new(texture: Option<Texture>) -> (r: Scene)
        requires
            match texture {
                Option::Some(t) => tex_wf(t),
                Option::None => true,
            },
        ensures
            scene_wf(r),
            r.cube.min@ == (-500_000int, 0int, -500_000int),
            r.cube.max@ == (500_000int, 1_000_000int, 500_000int),
            r.cube.texture == texture,
            texture is None ==> r.cube.color@ == (200_000int, 400_000int, 800_000int),
            texture is Some ==> r.cube.color@ == (0int, 0int, 0int),
            r.ground.point@ == (0int, 0int, 0int),
            r.ground.normal@ == (0int, SCALE as int, 0int),
            r.ground.color@ == (700_000int, 500_000int, 300_000int),
            r.directional_light.direction@ == s_normalize((-1_000_000int, 1_000_000int, 1_000_000int)),
            r.directional_light.color@ == (SCALE as int, SCALE as int, SCALE as int),
            r.directional_light.intensity == 800_000,
            r.ambient_light.color@ == (SCALE as int, SCALE as int, SCALE as int),
            r.ambient_light.intensity == 200_000,
            r.background_color@ == (600_000int, 600_000int, 300_000int),
    {
        let cube = match texture {
            Option::Some(t) => Cube::with_texture(
                Vector3 { x: -500_000, y: 0, z: -500_000 },
                Vector3 { x: 500_000, y: 1_000_000, z: 500_000 },
                t,
            ),
            Option::None => Cube::new(
                Vector3 { x: -500_000, y: 0, z: -500_000 },
                Vector3 { x: 500_000, y: 1_000_000, z: 500_000 },
                Vector3 { x: 200_000, y: 400_000, z: 800_000 },
            ),
        };
        let ground = Plane::new(
            Vector3 { x: 0, y: 0, z: 0 },
            Vector3 { x: 0, y: 1_000_000, z: 0 },
            Vector3 { x: 700_000, y: 500_000, z: 300_000 },
        );
        proof {
            lemma_unit_axis_normalize();
        }
        let directional_light = DirectionalLight::new(
            Vector3 { x: 1_000_000, y: -1_000_000, z: -1_000_000 },
            Vector3 { x: 1_000_000, y: 1_000_000, z: 1_000_000 },
            800_000,
        );
        let ambient_light = AmbientLight::new(
            Vector3 { x: 1_000_000, y: 1_000_000, z: 1_000_000 },
            200_000,
        );
        Scene {
            cube,
            ground,
            directional_light,
            ambient_light,
            background_color: Vector3 { x: 600_000, y: 600_000, z: 300_000 },
        }
    }

    /// Nearest hit over the cube and the ground, shrinking the search
    /// bound to the nearest distance found so far; a later primitive is
    /// kept only when strictly closer.
    pub fn hit(&self, ray: &Ray, t_min: Rat, t_max: Option<Rat>) -> (res: Option<HitRecord>)
        requires
            scene_wf(*self),
            ray_wf(*ray),
            r_wf(t_min),
            crate::cube::opt_wf(t_max),
        ensures
            res == s_scene_hit(*self, *ray, t_min, t_max),
            match res {
                Option::Some(h) => hr_wf(h),
                Option::None => true,
            },
    {
        match self.cube.hit(ray, t_min, t_max) {
            Option::Some(h1) => {
                match self.ground.hit(ray, t_min, Option::Some(h1.t)) {
                    Option::Some(h2) => if h2.t.lt(&h1.t) {
                        Option::Some(h2)
                    } else {
                        Option::Some(h1)
                    },
                    Option::None => Option::Some(h1),
                }
            },
            Option::None => self.ground.hit(ray, t_min, t_max),
        }
    }

    /// Whether anything blocks the path from a point toward the light;
    /// only the cube occludes, by design of this scene.
    pub fn is_in_shadow(&self, point: Vector3, light_direction: Vector3) -> (r: bool)
        requires
            scene_wf(*self),
            s_within(point@, COORD_MAX as int),
            s_within(light_direction@, SCALE as int),
            !s_is_zero(light_direction@),
        ensures
            r == s_is_in_shadow(*self, point@, light_direction@),
    {
        proof {
            lemma_scale_within(light_direction@, 1000, SCALE as int, 1000);
        }
        let offset = light_direction.scale(1000);
        let shadow_ray = Ray::new(point.add(&offset), light_direction);
        proof {
            assert(shadow_ray == s_shadow_ray(point@, light_direction@));
        }
        let probe = self.cube.hit(&shadow_ray, Rat::from_fixed(1000), Option::None);
        probe.is_some()
    }

    /// Ambient plus diffuse, the diffuse cut to a tenth in shadow. The
    /// result is unclamped but never negative.
    pub fn calculate_lighting(&self, hit: &HitRecord) -> (r: Vector3)
        requires
            scene_wf(*self),
            hr_wf(*hit),
        ensures
            r@ == s_lighting(*self, *hit),
            r.x >= 0 && r.y >= 0 && r.z >= 0,
    {
        let ambient = self.ambient_light.calculate_ambient(hit.material_color);
        let in_shadow = self.is_in_shadow(hit.point, self.directional_light.direction);
        let raw_diffuse = self.directional_light.calculate_diffuse(hit.normal, hit.material_color);
        let diffuse = if in_shadow {
            proof {
                lemma_scale_within(
                    raw_diffuse@,
                    100_000,
                    4 * (crate::light::INTENSITY_MAX as int),
                    100_000,
                );
                lemma_div_trunc_ge(raw_diffuse.x * 100_000, SCALE as int, 0);
                lemma_div_trunc_ge(raw_diffuse.y * 100_000, SCALE as int, 0);
                lemma_div_trunc_ge(raw_diffuse.z * 100_000, SCALE as int, 0);
                assert(raw_diffuse.x * 100_000 >= 0 && raw_diffuse.y * 100_000 >= 0
                    && raw_diffuse.z * 100_000 >= 0) by (nonlinear_arith)
                    requires
                        raw_diffuse.x >= 0 && raw_diffuse.y >= 0 && raw_diffuse.z >= 0,
                ;
            }
            raw_diffuse.scale(100_000)
        } else {
            raw_diffuse
        };
        ambient.add(&diffuse)
    }
}

/// Normalizing an axis-aligned unit vector gives it back exactly.
proof fn lemma_unit_axis_normalize()
    ensures
        s_normalize((0int, SCALE as int, 0int)) == (0int, SCALE as int, 0int),
{
    let a = (0int, SCALE as int, 0int);
    assert(s_dot_wide(a, a) == (SCALE as int) * (SCALE as int));
    assert(is_sqrt((SCALE as int) * (SCALE as int), SCALE as int)) by (nonlinear_arith);
    lemma_sqrt_of((SCALE as int) * (SCALE as int), SCALE as int);
    lemma_div_trunc_exact(0, SCALE as int);
    lemma_div_trunc_exact(SCALE as int, SCALE as int);
    assert((SCALE as int) * (SCALE as int) == (SCALE as int) * (SCALE as int));
}

pub struct RayTracer {
    pub width: u32,
    pub height: u32,
    pub camera: Camera,
    pub scene: Scene,
}

/// The dimension cap is overflow headroom: it keeps the fixed-point
/// aspect ratio `width * SCALE / height` within the camera's
/// representable range even at the most extreme proportions.
pub open spec fn rt_wf(rt: RayTracer) -> bool {
    &&& scene_wf(rt.scene)
    &&& cam_wf(rt.camera)
    &&& 2 <= rt.width <= 8192
    &&& 2 <= rt.height <= 8192
}

/// The normalized screen coordinate of pixel index `i` out of `n + 1`.
pub open spec fn s_screen_coord(i: int, n: int) -> int {
    (i * (SCALE as int)) / n
}

/// The color traced through pixel `(x, y)`, rows counted from the top.
pub open spec fn s_pixel_color(rt: RayTracer, x: int, y: int) -> (int, int, int) {
    let u = s_screen_coord(x, rt.width - 1);
    let v = s_screen_coord(rt.height - 1 - y, rt.height - 1);
    s_trace(rt.scene, s_get_ray(rt.camera, u, v))
}

/// A channel clamped to the unit interval.
pub open spec fn s_clamp_unit(c: int) -> int {
    if c < 0 {
        0
    } else if c > SCALE as int {
        SCALE as int
    } else {
        c
    }
}

/// A clamped channel scaled to a byte, truncating.
pub open spec fn s_byte(c: int) -> int {
    (s_clamp_unit(c) * 255) / (SCALE as int)
}

/// The four bytes of pixel `(x, y)` hold its traced color and full alpha.
pub open spec fn pixel_ok(rt: RayTracer, bytes: Seq<u8>, x: int, y: int) -> bool {
    let i = (y * rt.width + x) * 4;
    &&& 0 <= i
    &&& i + 3 < bytes.len()
    &&& bytes[i] == s_byte(s_pixel_color(rt, x, y).0)
    &&& bytes[i + 1] == s_byte(s_pixel_color(rt, x, y).1)
    &&& bytes[i + 2] == s_byte(s_pixel_color(rt, x, y).2)
    &&& bytes[i + 3] == 255
}

impl RayTracer {
    /// The default view: the camera at (2, 1, 3) looking at the cube's
    /// midpoint with a 45 degree vertical field of view, whose half
    /// tangent is exactly one less than the square root of two.
    pub fn new(width: u32, height: u32, texture: Option<Texture>) -> (r: RayTracer)
        requires
            2 <= width <= 8192,
            2 <= height <= 8192,
            match texture {
                Option::Some(t) => tex_wf(t),
                Option::None => true,
            },
        ensures
            r.width == width,
            r.height == height,
            rt_wf(r),
            r.camera.position@ == (2_000_000int, 1_000_000int, 3_000_000int),
            r.camera.target@ == (0int, 500_000int, 0int),
            r.camera.up@ == (0int, 1_000_000int, 0int),
            r.camera.half_fov_tan == sqrt_of(2_000_000_000_000) - 1_000_000,
            r.camera.aspect_ratio == (width * (SCALE as int)) / (height as int),
            r.camera.forward@ == s_cam_forward(r.camera.position@, r.camera.target@),
            r.camera.right@ == crate::camera::s_cam_right(
                r.camera.position@,
                r.camera.target@,
                r.camera.up@,
            ),
            r.camera.camera_up@ == crate::camera::s_cam_up(
                r.camera.position@,
                r.camera.target@,
                r.camera.up@,
            ),
            r.camera.viewport_height == 2 * r.camera.half_fov_tan,
            r.camera.viewport_width == div_trunc(
                r.camera.aspect_ratio * (2 * r.camera.half_fov_tan),
                SCALE as int,
            ),
            r.camera.horizontal@ == s_scale(r.camera.right@, r.camera.viewport_width as int),
            r.camera.vertical@ == s_scale(r.camera.camera_up@, r.camera.viewport_height as int),
            r.camera.lower_left_corner@ == s_sub(
                s_sub(
                    s_add(r.camera.position@, r.camera.forward@),
                    s_scale(r.camera.horizontal@, 500_000),
                ),
                s_scale(r.camera.vertical@, 500_000),
            ),
            r.scene.cube.min@ == (-500_000int, 0int, -500_000int),
            r.scene.cube.max@ == (500_000int, 1_000_000int, 500_000int),
            r.scene.cube.texture == texture,
            texture is None ==> r.scene.cube.color@ == (200_000int, 400_000int, 800_000int),
            texture is Some ==> r.scene.cube.color@ == (0int, 0int, 0int),
            r.scene.ground.point@ == (0int, 0int, 0int),
            r.scene.ground.normal@ == (0int, SCALE as int, 0int),
            r.scene.ground.color@ == (700_000int, 500_000int, 300_000int),
            r.scene.directional_light.direction@ == s_normalize(
                (-1_000_000int, 1_000_000int, 1_000_000int),
            ),
            r.scene.directional_light.color@ == (SCALE as int, SCALE as int, SCALE as int),
            r.scene.directional_light.intensity == 800_000,
            r.scene.ambient_light.color@ == (SCALE as int, SCALE as int, SCALE as int),
            r.scene.ambient_light.intensity == 200_000,
            r.scene.background_color@ == (600_000int, 600_000int, 300_000int),
    {
        let aspect: i64 = (((width as u64) * 1_000_000) / (height as u64)) as i64;
        let sqrt2: u64 = isqrt(2_000_000_000_000);
        proof {
            lemma_sqrt_of(2_000_000_000_000, sqrt2 as int);
            assert(1_400_000 <= sqrt2 < 1_500_000) by (nonlinear_arith)
                requires
                    is_sqrt(2_000_000_000_000, sqrt2 as int),
            ;
        }
        let half_tan: i64 = (sqrt2 as i64) - 1_000_000;
        let position = Vector3 { x: 2_000_000, y: 1_000_000, z: 3_000_000 };
        let target = Vector3 { x: 0, y: 500_000, z: 0 };
        let up = Vector3 { x: 0, y: 1_000_000, z: 0 };
        proof {
            lemma_default_pose_regular();
            vstd::arithmetic::div_mod::lemma_div_pos_is_pos((width as int) * 1_000_000, height as int);
            vstd::arithmetic::div_mod::lemma_div_is_ordered_by_denominator(
                (width as int) * 1_000_000,
                2,
                height as int,
            );
            vstd::arithmetic::div_mod::lemma_div_is_ordered(
                (width as int) * 1_000_000,
                8_192_000_000,
                2,
            );
            vstd::arithmetic::div_mod::lemma_div_multiples_vanish(4_096_000_000, 2);
            vstd::arithmetic::div_mod::lemma_div_is_ordered(height as int, (width as int) * 1_000_000, height as int);
            vstd::arithmetic::div_mod::lemma_div_by_self(height as int);
        }
        let camera = Camera::new(position, target, up, half_tan, aspect);
        let scene = Scene::new(texture);
        RayTracer { width, height, camera, scene }
    }

    /// The color of one ray through the scene.
    pub fn trace_ray(&self, ray: &Ray) -> (r: Vector3)
        requires
            rt_wf(*self),
            ray_wf(*ray),
        ensures
            r@ == s_trace(self.scene, *ray),
            r.x >= 0 && r.y >= 0 && r.z >= 0,
    {
        match self.scene.hit(ray, Rat::from_fixed(1000), Option::None) {
            Option::Some(hit) => self.scene.calculate_lighting(&hit),
            Option::None => self.scene.background_color,
        }
    }

    /// Trace every pixel left to right, top to bottom, into RGBA bytes.
    pub fn render(&self) -> (r: Vec<u8>)
        requires
            rt_wf(*self),
        ensures
            r@.len() == self.width * self.height * 4,
            forall|x: int, y: int|
                0 <= x < self.width && 0 <= y < self.height ==> #[trigger] pixel_ok(
                    *self,
                    r@,
                    x,
                    y,
                ),
    {
        let w = self.width;
        let h = self.height;
        let mut pixels: Vec<u8> = Vec::new();
        let mut y: u32 = 0;
        while y < h
            invariant
                rt_wf(*self),
                w == self.width,
                h == self.height,
                y <= h,
                pixels@.len() == y * w * 4,
                forall|xx: int, yy: int|
                    0 <= xx < w && 0 <= yy < y ==> #[trigger] pixel_ok(*self, pixels@, xx, yy),
            decreases h - y,
        {
            let mut x: u32 = 0;
            while x < w
                invariant
                    rt_wf(*self),
                    w == self.width,
                    h == self.height,
                    y < h,
                    x <= w,
                    pixels@.len() == (y * w + x) * 4,
                    forall|xx: int, yy: int|
                        0 <= xx < w && 0 <= yy < y ==> #[trigger] pixel_ok(*self, pixels@, xx, yy),
                    forall|xx: int|
                        0 <= xx < x ==> #[trigger] pixel_ok(*self, pixels@, xx, y as int),
                decreases w - x,
            {
                let u = screen_coord(x, w - 1);
                let v = screen_coord(h - 1 - y, h - 1);
                let ray = self.camera.get_ray(u, v);
                let color = self.trace_ray(&ray);
                let ghost before = pixels@;
                let rb = byte_of(color.x);
                let gb = byte_of(color.y);
                let bb = byte_of(color.z);
                pixels.push(rb);
                pixels.push(gb);
                pixels.push(bb);
                pixels.push(255);
                proof {
                    assert(pixels@.len() == (y * w + x) * 4 + 4);
                    assert(((y as int) * w + x) * 4 + 4 == ((y as int) * w + (x + 1)) * 4);
                    assert(pixel_ok(*self, pixels@, x as int, y as int));
                    assert forall|xx: int, yy: int|
                        0 <= xx < w && 0 <= yy < y implies #[trigger] pixel_ok(
                        *self,
                        pixels@,
                        xx,
                        yy,
                    ) by {
                        assert(pixel_ok(*self, before, xx, yy));
                    }
                    assert forall|xx: int| 0 <= xx < x + 1 implies #[trigger] pixel_ok(
                        *self,
                        pixels@,
                        xx,
                        y as int,
                    ) by {
                        if xx < x {
                            assert(pixel_ok(*self, before, xx, y as int));
                        }
                    }
                }
                x += 1;
            }
            proof {
                assert((y as int) * w + w == ((y as int) + 1) * w) by (nonlinear_arith);
                assert forall|xx: int, yy: int|
                    0 <= xx < w && 0 <= yy < y + 1 implies #[trigger] pixel_ok(
                    *self,
                    pixels@,
                    xx,
                    yy,
                ) by {
                    if yy < y {
                        assert(pixel_ok(*self, pixels@, xx, yy));
                    } else {
                        assert(pixel_ok(*self, pixels@, xx, y as int));
                    }
                }
            }
            y += 1;
        }
        proof {
            assert((h as int) * w * 4 == (w as int) * h * 4) by (nonlinear_arith);
        }
        pixels
    }
}

/// The default pose is not degenerate: the camera does not sit on its
/// target and the up hint is not parallel to the view direction.
proof fn lemma_default_pose_regular()
    ensures
        !s_is_zero(s_sub((0int, 500_000int, 0int), (2_000_000int, 1_000_000int, 3_000_000int))),
        !s_is_zero(
            s_cross(
                s_cam_forward((2_000_000int, 1_000_000int, 3_000_000int), (0int, 500_000int, 0int)),
                (0int, 1_000_000int, 0int),
            ),
        ),
{
    let pos = (2_000_000int, 1_000_000int, 3_000_000int);
    let tgt = (0int, 500_000int, 0int);
    let upv = (0int, 1_000_000int, 0int);
    let diff = s_sub(tgt, pos);
    assert(diff == (-2_000_000int, -500_000int, -3_000_000int));
    let n2 = s_dot_wide(diff, diff);
    assert(n2 == 13_250_000_000_000) by (nonlinear_arith)
        requires
            diff == (-2_000_000int, -500_000int, -3_000_000int),
            n2 == s_dot_wide(diff, diff),
    ;
    lemma_sqrt_exists(n2);
    let len = sqrt_of(n2);
    assert(1 <= len < 3_700_000) by (nonlinear_arith)
        requires
            is_sqrt(13_250_000_000_000, len),
    ;
    let fwd = s_cam_forward(pos, tgt);
    assert(fwd.2 == div_trunc(-3_000_000 * (SCALE as int), len));
    assert(-3_000_000 * (SCALE as int) <= -800_000 * len) by (nonlinear_arith)
        requires
            1 <= len < 3_700_000,
    ;
    lemma_div_trunc_le(-3_000_000 * (SCALE as int), len, -800_000);
    assert(fwd.2 <= -800_000);
    let cr = s_cross(fwd, upv);
    assert(cr.0 == div_trunc(fwd.1 * 0 - fwd.2 * 1_000_000, SCALE as int));
    assert(fwd.1 * 0 - fwd.2 * 1_000_000 == (-fwd.2) * (SCALE as int)) by (nonlinear_arith);
    lemma_div_trunc_exact(-fwd.2, SCALE as int);
    assert(cr.0 == -fwd.2);
    assert(cr.0 >= 800_000);
}

/// The executable normalized screen coordinate.
fn screen_coord(i: u32, n: u32) -> (r: i64)
    requires
        1 <= n <= 8191,
        i <= n,
    ensures
        r == s_screen_coord(i as int, n as int),
        0 <= r <= SCALE,
{
    proof {
        vstd::arithmetic::div_mod::lemma_div_pos_is_pos((i as int) * 1_000_000, n as int);
        vstd::arithmetic::div_mod::lemma_div_is_ordered(
            (i as int) * 1_000_000,
            (n as int) * 1_000_000,
            n as int,
        );
        vstd::arithmetic::div_mod::lemma_div_multiples_vanish(1_000_000, n as int);
        assert((i as int) * 1_000_000 <= (n as int) * 1_000_000) by (nonlinear_arith)
            requires
                i <= n,
        ;
    }
    (((i as u64) * 1_000_000) / (n as u64)) as i64
}

/// One channel clamped to the unit interval and scaled to a byte.
fn byte_of(c: i64) -> (b: u8)
    ensures
        b == s_byte(c as int),
{
    let cl: i64 = if c < 0 {
        0
    } else if c > SCALE {
        SCALE
    } else {
        c
    };
    proof {
        vstd::arithmetic::div_mod::lemma_div_pos_is_pos(cl * 255, SCALE as int);
        vstd::arithmetic::div_mod::lemma_div_is_ordered(cl * 255, 255_000_000, SCALE as int);
        vstd::arithmetic::div_mod::lemma_div_multiples_vanish(255, SCALE as int);
    }
    ((cl * 255) / SCALE) as u8
}

} // verus!
