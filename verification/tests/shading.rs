use raytracer::light::{AmbientLight, DirectionalLight};
use raytracer::rat::Rat;
use raytracer::ray::Ray;
use raytracer::raytracer::{RayTracer, Scene};
use raytracer::texture::Texture;
use raytracer::vec3::Vector3;

const S: i64 = 1_000_000;

#[test]
fn directional_light_points_back_toward_source() {
    let light = DirectionalLight::new(
        Vector3::new(S, -S, -S),
        Vector3::new(S, S, S),
        800_000,
    );
    // normalized opposite of the travel direction: 1/sqrt(3) per axis
    assert_eq!(light.direction, Vector3::new(-577_350, 577_350, 577_350));
}

#[test]
fn ambient_term_exact() {
    let light = AmbientLight::new(Vector3::new(S, S, S), 200_000);
    let c = light.calculate_ambient(Vector3::new(500_000, 250_000, S));
    assert_eq!(c, Vector3::new(100_000, 50_000, 200_000));
}

#[test]
fn diffuse_term_exact_and_nonnegative() {
    let light = DirectionalLight::new(
        Vector3::new(S, -S, -S),
        Vector3::new(S, S, S),
        800_000,
    );
    let up = Vector3::new(0, S, 0);
    let white = Vector3::new(S, S, S);
    let c = light.calculate_diffuse(up, white);
    // cos = 0.577350, strength = trunc(0.577350 * 0.8) = 0.461880
    assert_eq!(c, Vector3::new(461_880, 461_880, 461_880));
    // a surface facing away gets exactly nothing
    let down = Vector3::new(0, -S, 0);
    assert_eq!(light.calculate_diffuse(down, white), Vector3::new(0, 0, 0));
    assert!(c.x >= 0 && c.y >= 0 && c.z >= 0);
}

#[test]
fn texture_sampling_nearest_and_wrapping() {
    // 2x2 texels: row 0 red, green; row 1 blue, white
    let bytes = vec![
        255, 0, 0, 255, 0, 255, 0, 255, // top row
        0, 0, 255, 255, 255, 255, 255, 255, // bottom row
    ];
    let tex = Texture::new(2, 2, bytes);
    // u=0.25, v=0.75 -> column 0, flipped row 0 (top): red
    assert_eq!(tex.sample(250_000, 750_000), Vector3::new(S, 0, 0));
    // u=0.75, v=0.25 -> column 1, row 1: white
    assert_eq!(tex.sample(750_000, 250_000), Vector3::new(S, S, S));
    // wrapping: u=1.25 behaves like 0.25 in the fractional part
    assert_eq!(tex.sample(1_250_000, 750_000), Vector3::new(S, 0, 0));
    // negative u truncates toward zero and clamps to the first column
    assert_eq!(tex.sample(-250_000, 750_000), Vector3::new(S, 0, 0));
}

#[test]
fn textured_cube_hit_samples_face() {
    let bytes = vec![
        255, 0, 0, 255, 0, 255, 0, 255, //
        0, 0, 255, 255, 255, 255, 255, 255,
    ];
    let tex = Texture::new(2, 2, bytes);
    let scene = Scene::new(Some(tex));
    // straight at the middle of the +Z face: u = v = 0.5 -> column 1, row 1: white
    let ray = Ray::new(Vector3::new(0, 500_000, 3 * S), Vector3::new(0, 0, -S));
    let hit = scene
        .cube
        .hit(&ray, Rat::from_fixed(1000), None)
        .expect("must hit");
    assert_eq!(hit.material_color, Vector3::new(S, S, S));
}

#[test]
fn shadow_blocked_and_clear() {
    let scene = Scene::new(None);
    let to_light = scene.directional_light.direction;
    // a point on the ground just in front of the cube's lower right: the
    // path toward the upper-left light runs through the cube
    let blocked = scene.is_in_shadow(Vector3::new(600_000, 100_000, 0), to_light);
    assert!(blocked);
    // far off to the side the same direction misses the cube entirely
    let clear = scene.is_in_shadow(Vector3::new(5 * S, 100_000, 5 * S), to_light);
    assert!(!clear);
}

#[test]
fn scene_prefers_closest_hit() {
    let scene = Scene::new(None);
    // from above the cube straight down: cube top at t = 2, ground at t = 3
    let ray = Ray::new(Vector3::new(200_000, 3 * S, 200_000), Vector3::new(0, -S, 0));
    let hit = scene.hit(&ray, Rat::from_fixed(1000), None).expect("must hit");
    assert_eq!(hit.normal, Vector3::new(0, S, 0));
    assert_eq!(hit.material_color, Vector3::new(200_000, 400_000, 800_000));
    // next to the cube the same ray reaches the ground
    let ray2 = Ray::new(Vector3::new(2 * S, 3 * S, 200_000), Vector3::new(0, -S, 0));
    let hit2 = scene.hit(&ray2, Rat::from_fixed(1000), None).expect("must hit");
    assert_eq!(hit2.material_color, Vector3::new(700_000, 500_000, 300_000));
}

#[test]
fn exact_tie_keeps_the_cube() {
    let scene = Scene::new(None);
    // straight up from below: the cube's bottom face and the ground plane
    // both sit at y = 0, so both intersections land at exactly t = 1
    let ray = Ray::new(Vector3::new(200_000, -S, 200_000), Vector3::new(0, S, 0));
    let hit = scene.hit(&ray, Rat::from_fixed(1000), None).expect("must hit");
    assert_eq!(hit.material_color, Vector3::new(200_000, 400_000, 800_000));
    assert_eq!(hit.normal, Vector3::new(0, -S, 0));
    assert!(hit.front_face);
}

#[test]
fn lighting_never_negative() {
    let scene = Scene::new(None);
    let ray = Ray::new(Vector3::new(0, 500_000, 3 * S), Vector3::new(0, 0, -S));
    let hit = scene.hit(&ray, Rat::from_fixed(1000), None).expect("must hit");
    let c = scene.calculate_lighting(&hit);
    assert!(c.x >= 0 && c.y >= 0 && c.z >= 0);
}

#[test]
fn camera_corner_rays_reproduce_viewport() {
    let rt = RayTracer::new(800, 700, None);
    let cam = rt.camera;
    let corner00 = cam.lower_left_corner.sub(&cam.position).normalize();
    assert_eq!(rt.camera.get_ray(0, 0).direction, corner00);
    let corner10 = cam
        .lower_left_corner
        .add(&cam.horizontal)
        .sub(&cam.position)
        .normalize();
    assert_eq!(rt.camera.get_ray(S, 0).direction, corner10);
    let corner01 = cam
        .lower_left_corner
        .add(&cam.vertical)
        .sub(&cam.position)
        .normalize();
    assert_eq!(rt.camera.get_ray(0, S).direction, corner01);
    let corner11 = cam
        .lower_left_corner
        .add(&cam.horizontal)
        .add(&cam.vertical)
        .sub(&cam.position)
        .normalize();
    assert_eq!(rt.camera.get_ray(S, S).direction, corner11);
    // every corner ray starts at the camera
    assert_eq!(rt.camera.get_ray(0, 0).origin, cam.position);
}

#[test]
fn center_pixel_sees_a_primitive_not_background() {
    let rt = RayTracer::new(800, 700, None);
    // pixel (400, 350): u = 400/799, v = (699 - 350)/699
    let u = 400 * S / 799;
    let v = 349 * S / 699;
    let ray = rt.camera.get_ray(u, v);
    let c = rt.trace_ray(&ray);
    let bg = rt.scene.background_color;
    assert!(!(c.x == bg.x && c.y == bg.y && c.z == bg.z));
}

#[test]
fn miss_gives_exact_background_bytes() {
    let rt = RayTracer::new(8, 7, None);
    // the top-left corner ray points up and left, above the horizon
    let ray = rt.camera.get_ray(0, S);
    let c = rt.trace_ray(&ray);
    assert_eq!(c, Vector3::new(600_000, 600_000, 300_000));
    let pixels = rt.render();
    assert_eq!(pixels.len(), 8 * 7 * 4);
    // image row 0 starts at the v = 1 edge: the same ray, so the same color
    assert_eq!(&pixels[0..4], &[153, 153, 76, 255]);
}

#[test]
fn render_matches_traced_pixel() {
    let rt = RayTracer::new(4, 3, None);
    let pixels = rt.render();
    // pixel (x = 1, y = 1): u = 1/3, v = (2 - 1)/2
    let u = S / 3;
    let v = S / 2;
    let c = rt.trace_ray(&rt.camera.get_ray(u, v));
    let clamp = |q: i64| -> i64 {
        if q < 0 {
            0
        } else if q > S {
            S
        } else {
            q
        }
    };
    let idx = (1 * 4 + 1) * 4;
    assert_eq!(pixels[idx] as i64, clamp(c.x) * 255 / S);
    assert_eq!(pixels[idx + 1] as i64, clamp(c.y) * 255 / S);
    assert_eq!(pixels[idx + 2] as i64, clamp(c.z) * 255 / S);
    assert_eq!(pixels[idx + 3], 255);
}

#[test]
fn render_fills_every_alpha_byte() {
    let rt = RayTracer::new(4, 3, None);
    let pixels = rt.render();
    assert_eq!(pixels.len(), 4 * 3 * 4);
    for p in 0..(4 * 3) {
        assert_eq!(pixels[p * 4 + 3], 255);
    }
}
