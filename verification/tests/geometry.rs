use raytracer::cube::{Cube, Plane};
use raytracer::rat::Rat;
use raytracer::ray::Ray;
use raytracer::vec3::Vector3;

const S: i64 = 1_000_000;

fn eps() -> Rat {
    Rat::from_fixed(1000)
}

fn flat_cube() -> Cube {
    Cube::new(
        Vector3::new(-500_000, 0, -500_000),
        Vector3::new(500_000, S, 500_000),
        Vector3::new(200_000, 400_000, 800_000),
    )
}

/// Rationals compared by cross multiplication.
fn rat_is(t: &Rat, num: i128, den: i128) -> bool {
    t.num * den == num * t.den
}

#[test]
fn vector_ops_exact() {
    let a = Vector3::new(3 * S, 0, 4 * S);
    let n = a.normalize();
    assert_eq!(n, Vector3::new(600_000, 0, 800_000));
    let ex = Vector3::new(S, 0, 0);
    let ey = Vector3::new(0, S, 0);
    assert_eq!(ex.cross(&ey), Vector3::new(0, 0, S));
    assert_eq!(ex.dot(&ey), 0);
    assert_eq!(ex.dot(&ex), S);
    assert_eq!(ex.add(&ey), Vector3::new(S, S, 0));
    assert_eq!(ex.sub(&ey), Vector3::new(S, -S, 0));
    assert_eq!(ex.scale(500_000), Vector3::new(500_000, 0, 0));
    assert_eq!(ex.neg(), Vector3::new(-S, 0, 0));
}

#[test]
fn ray_normalizes_direction() {
    let r = Ray::new(Vector3::new(0, 0, 0), Vector3::new(0, -7 * S, 0));
    assert_eq!(r.direction, Vector3::new(0, -S, 0));
}

#[test]
fn ray_at_evaluates() {
    let r = Ray::new(Vector3::new(S, 2 * S, 3 * S), Vector3::new(0, -S, 0));
    let p = r.at(&Rat { num: 1_500_000, den: 1_000_000 });
    assert_eq!(p, Vector3::new(S, 500_000, 3 * S));
}

#[test]
fn plane_down_ray_hits_at_origin_height() {
    let plane = Plane::new(
        Vector3::new(0, 0, 0),
        Vector3::new(0, S, 0),
        Vector3::new(700_000, 500_000, 300_000),
    );
    let ray = Ray::new(Vector3::new(500_000, 2 * S, 300_000), Vector3::new(0, -S, 0));
    let hit = plane.hit(&ray, eps(), None).expect("must hit");
    assert!(rat_is(&hit.t, 2_000_000, 1_000_000));
    assert_eq!(hit.point.y, 0);
    assert_eq!(hit.normal, Vector3::new(0, S, 0));
    assert!(hit.front_face);
    assert_eq!(hit.material_color, Vector3::new(700_000, 500_000, 300_000));
}

#[test]
fn plane_parallel_ray_misses() {
    let plane = Plane::new(
        Vector3::new(0, 0, 0),
        Vector3::new(0, S, 0),
        Vector3::new(700_000, 500_000, 300_000),
    );
    let ray = Ray::new(Vector3::new(0, 2 * S, 0), Vector3::new(S, 0, 0));
    assert!(plane.hit(&ray, eps(), None).is_none());
}

#[test]
fn cube_front_face_hit() {
    let cube = flat_cube();
    let ray = Ray::new(Vector3::new(0, 500_000, 3 * S), Vector3::new(0, 0, -S));
    let hit = cube.hit(&ray, eps(), None).expect("must hit");
    // entry of the z slab: (3 - 0.5) / 1 = 2.5 units
    assert!(rat_is(&hit.t, 2_500_000, 1_000_000));
    assert_eq!(hit.normal, Vector3::new(0, 0, S));
    assert!(hit.front_face);
    assert_eq!(hit.point, Vector3::new(0, 500_000, 500_000));
    assert_eq!(hit.material_color, Vector3::new(200_000, 400_000, 800_000));
}

#[test]
fn cube_top_face_hit() {
    let cube = flat_cube();
    let ray = Ray::new(Vector3::new(200_000, 3 * S, 200_000), Vector3::new(0, -S, 0));
    let hit = cube.hit(&ray, eps(), None).expect("must hit");
    assert!(rat_is(&hit.t, 2_000_000, 1_000_000));
    assert_eq!(hit.normal, Vector3::new(0, S, 0));
    assert!(hit.front_face);
}

#[test]
fn cube_missed_when_passing_outside_one_axis() {
    let cube = flat_cube();
    // direction nonzero on every axis, path stays far above the cube in y
    let ray = Ray::new(Vector3::new(-3 * S, 5 * S, 0), Vector3::new(S, 1, 1));
    assert!(cube.hit(&ray, eps(), None).is_none());
    // pointing away from the cube entirely
    let ray2 = Ray::new(Vector3::new(5 * S, 5 * S, 5 * S), Vector3::new(S, S, S));
    assert!(cube.hit(&ray2, eps(), None).is_none());
}

#[test]
fn cube_normal_opposes_ray_from_behind() {
    let cube = flat_cube();
    // from negative z looking toward positive z: strikes the -Z face
    let ray = Ray::new(Vector3::new(0, 500_000, -3 * S), Vector3::new(0, 0, S));
    let hit = cube.hit(&ray, eps(), None).expect("must hit");
    assert_eq!(hit.normal, Vector3::new(0, 0, -S));
    assert!(hit.front_face);
    // the normal opposes the ray direction
    assert!(hit.normal.dot(&ray.direction) < 0);
}

#[test]
fn plane_parallel_threshold() {
    let brown = Vector3::new(700_000, 500_000, 300_000);
    // a nearly horizontal ray: one fixed-point step of downward drift
    let ray = Ray::new(Vector3::new(0, 2 * S, 0), Vector3::new(S, -1, 0));
    assert_eq!(ray.direction, Vector3::new(S, -1, 0));
    // a normal one step under the threshold: the wide dot product is
    // 9_999, within a hundred-millionth of a unit, so the ray counts as
    // parallel and misses
    let near = Plane {
        point: Vector3::new(0, 0, 0),
        normal: Vector3::new(0, 9_999, 0),
        color: brown,
    };
    assert!(near.hit(&ray, eps(), None).is_none());
    // one step more crosses the threshold and the geometric hit returns
    let at = Plane {
        point: Vector3::new(0, 0, 0),
        normal: Vector3::new(0, 10_000, 0),
        color: brown,
    };
    assert!(at.hit(&ray, eps(), None).is_some());
}

#[test]
fn cube_respects_t_max() {
    let cube = flat_cube();
    let ray = Ray::new(Vector3::new(0, 500_000, 3 * S), Vector3::new(0, 0, -S));
    // the hit would be at 2.5 units; a bound of 2 rejects it
    let bound = Rat { num: 2_000_000, den: 1_000_000 };
    assert!(cube.hit(&ray, eps(), Some(bound)).is_none());
    let wide = Rat { num: 3_000_000, den: 1_000_000 };
    assert!(cube.hit(&ray, eps(), Some(wide)).is_some());
}
