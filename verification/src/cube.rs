//! Ray-primitive intersection: the axis-aligned textured cube via the
//! slab test over exact rationals, and the ground plane. Both produce hit
//! records that match their spec-level mirrors exactly.

use vstd::prelude::*;
use crate::fixed::SCALE;
use crate::fixed::COORD_MAX;
use crate::fixed::ORIGIN_MAX;
use crate::fixed::div_trunc;
use crate::fixed::div_trunc_i128;
use crate::fixed::lemma_div_trunc_le;
use crate::fixed::lemma_div_trunc_ge;
use crate::vec3::Vector3;
use crate::vec3::v3;
use crate::vec3::VNORM_MAX;
use crate::vec3::s_within;
use crate::vec3::s_is_zero;
use crate::vec3::s_normalize;
use crate::vec3::s_neg;
use crate::vec3::s_sub;
use crate::vec3::s_dot_wide;
use crate::rat::Rat;
use crate::rat::RAT_MAX;
use crate::rat::r_wf;
use crate::rat::r_le;
use crate::rat::r_lt;
use crate::ray::Ray;
use crate::ray::ray_wf;
use crate::ray::s_at;
use crate::ray::HitRecord;
use crate::ray::hr_wf;
use crate::ray::color_wf;
use crate::texture::Texture;
use crate::texture::tex_wf;
use crate::texture::s_sample;

verus! {

/// An optional upper distance bound; `None` is an unbounded search.
pub open spec fn opt_wf(m: Option<Rat>) -> bool {
    match m {
        Option::Some(f) => r_wf(f),
        Option::None => true,
    }
}

/// `t` respects the optional upper bound.
pub open spec fn opt_le(t: Rat, m: Option<Rat>) -> bool {
    match m {
        Option::Some(f) => r_le(t, f),
        Option::None => true,
    }
}

/// The distance at which the ray crosses the nearer bounding plane of
/// one axis, as an exact rational with positive denominator.
pub open spec fn s_axis_entry(o: int, d: int, mn: int, mx: int) -> Rat {
    if d > 0 {
        Rat { num: (mn - o) as i128, den: d as i128 }
    } else {
        Rat { num: (o - mx) as i128, den: (-d) as i128 }
    }
}

/// The distance at which the ray crosses the farther bounding plane.
pub open spec fn s_axis_exit(o: int, d: int, mn: int, mx: int) -> Rat {
    if d > 0 {
        Rat { num: (mx - o) as i128, den: d as i128 }
    } else {
        Rat { num: (o - mn) as i128, den: (-d) as i128 }
    }
}

/// The face index of the entry plane: even for the low face, odd for the
/// high face, two indices per axis.
pub open spec fn s_axis_face(d: int, k: int) -> int {
    if d > 0 {
        2 * k
    } else {
        2 * k + 1
    }
}

/// One axis of the slab test: reject a parallel ray that starts outside,
/// otherwise tighten the running interval and remember which face last
/// raised the lower end. `None` is rejection.
pub open spec fn s_slab_step(
    st: Option<(Rat, Option<Rat>, int)>,
    o: int,
    d: int,
    mn: int,
    mx: int,
    k: int,
) -> Option<(Rat, Option<Rat>, int)> {
    match st {
        Option::None => Option::None,
        Option::Some((tn, tf, face)) => {
            if d == 0 {
                if o < mn || o > mx {
                    Option::None
                } else {
                    st
                }
            } else {
                let e = s_axis_entry(o, d, mn, mx);
                let x = s_axis_exit(o, d, mn, mx);
                let tn2 = if r_lt(tn, e) {
                    e
                } else {
                    tn
                };
                let face2 = if r_lt(tn, e) {
                    s_axis_face(d, k)
                } else {
                    face
                };
                let tf2 = match tf {
                    Option::None => x,
                    Option::Some(f) => if r_lt(x, f) {
                        x
                    } else {
                        f
                    },
                };
                if r_lt(tf2, tn2) {
                    Option::None
                } else {
                    Option::Some((tn2, Option::Some(tf2), face2))
                }
            }
        },
    }
}

/// The whole slab pass, one axis after the other.
pub open spec fn s_slab(c: Cube, r: Ray, t_min: Rat, t_max: Option<Rat>) -> Option<
    (Rat, Option<Rat>, int),
> {
    s_slab_step(
        s_slab_step(
            s_slab_step(
                Option::Some((t_min, t_max, 0int)),
                r.origin.x as int,
                r.direction.x as int,
                c.min.x as int,
                c.max.x as int,
                0,
            ),
            r.origin.y as int,
            r.direction.y as int,
            c.min.y as int,
            c.max.y as int,
            1,
        ),
        r.origin.z as int,
        r.direction.z as int,
        c.min.z as int,
        c.max.z as int,
        2,
    )
}

/// The outward unit normal of a face index.
pub open spec fn s_face_normal(face: int) -> (int, int, int) {
    if face == 0 {
        (-(SCALE as int), 0, 0)
    } else if face == 1 {
        ((SCALE as int), 0, 0)
    } else if face == 2 {
        (0, -(SCALE as int), 0)
    } else if face == 3 {
        (0, (SCALE as int), 0)
    } else if face == 4 {
        (0, 0, -(SCALE as int))
    } else {
        (0, 0, (SCALE as int))
    }
}

/// A coordinate mapped linearly from a slab extent onto the unit interval.
pub open spec fn s_uv_coord(p: int, mn: int, mx: int) -> int {
    div_trunc((p - mn) * SCALE, mx - mn)
}

/// The texture coordinates of a hit point: the two axes orthogonal to
/// the hit face, each mapped onto the unit interval.
pub open spec fn s_cube_uv(c: Cube, face: int, hp: (int, int, int)) -> (int, int) {
    if face == 0 || face == 1 {
        (s_uv_coord(hp.2, c.min.z as int, c.max.z as int), s_uv_coord(hp.1, c.min.y as int, c.max.y as int))
    } else if face == 2 || face == 3 {
        (s_uv_coord(hp.0, c.min.x as int, c.max.x as int), s_uv_coord(hp.2, c.min.z as int, c.max.z as int))
    } else {
        (s_uv_coord(hp.0, c.min.x as int, c.max.x as int), s_uv_coord(hp.1, c.min.y as int, c.max.y as int))
    }
}

/// The material at a hit: the texture sample if one is attached, the
/// flat color otherwise.
pub open spec fn s_cube_color(c: Cube, face: int, hp: (int, int, int)) -> (int, int, int) {
    match c.texture {
        Option::Some(tex) => {
            let uv = s_cube_uv(c, face, hp);
            s_sample(tex, uv.0, uv.1)
        },
        Option::None => c.color@,
    }
}

/// What `Cube::hit` returns.
pub open spec fn s_cube_hit(c: Cube, r: Ray, t_min: Rat, t_max: Option<Rat>) -> Option<
    HitRecord,
> {
    match s_slab(c, r, t_min, t_max) {
        Option::None => Option::None,
        Option::Some((tn, tf, face)) => {
            if r_le(t_min, tn) && opt_le(tn, t_max) {
                let hp = s_at(r, tn);
                let n = s_face_normal(face);
                let ff = s_dot_wide(r.direction@, n) < 0;
                Option::Some(
                    HitRecord {
                        point: v3(hp),
                        normal: v3(if ff { n } else { s_neg(n) }),
                        t: tn,
                        front_face: ff,
                        material_color: v3(s_cube_color(c, face, hp)),
                    },
                )
            } else {
                Option::None
            }
        },
    }
}

#[derive(Clone, Debug)]
pub struct Cube {
    pub min: Vector3,
    pub max: Vector3,
    pub color: Vector3,
    pub texture: Option<Texture>,
}

/// Proper corners in range, a unit-interval color, a decoded texture.
pub open spec fn cube_wf(c: Cube) -> bool {
    &&& s_within(c.min@, COORD_MAX as int)
    &&& s_within(c.max@, COORD_MAX as int)
    &&& c.min.x < c.max.x
    &&& c.min.y < c.max.y
    &&& c.min.z < c.max.z
    &&& color_wf(c.color@)
    &&& match c.texture {
        Option::Some(t) => tex_wf(t),
        Option::None => true,
    }
}

impl Cube {
    pub fn new(min: Vector3, max: Vector3, color: Vector3) -> (r: Cube)
        requires
            s_within(min@, COORD_MAX as int),
            s_within(max@, COORD_MAX as int),
            min.x < max.x,
            min.y < max.y,
            min.z < max.z,
            color_wf(color@),
        ensures
            r.min == min && r.max == max && r.color == color,
            r.texture is None,
            cube_wf(r),
    {
        Cube { min, max, color, texture: Option::None }
    }

    pub fn with_texture(min: Vector3, max: Vector3, texture: Texture) -> (r: Cube)
        requires
            s_within(min@, COORD_MAX as int),
            s_within(max@, COORD_MAX as int),
            min.x < max.x,
            min.y < max.y,
            min.z < max.z,
            tex_wf(texture),
        ensures
            r.min == min && r.max == max,
            r.color@ == (0int, 0int, 0int),
            r.texture == Option::Some(texture),
            cube_wf(r),
    {
        Cube { min, max, color: Vector3::zero(), texture: Option::Some(texture) }
    }

    /// Slab intersection: tighten the distance interval axis by axis and
    /// accept the interval's near end if it lies within the search range.
    pub fn hit(&self, ray: &Ray, t_min: Rat, t_max: Option<Rat>) -> (res: Option<HitRecord>)
        requires
            cube_wf(*self),
            ray_wf(*ray),
            r_wf(t_min),
            opt_wf(t_max),
        ensures
            res == s_cube_hit(*self, *ray, t_min, t_max),
            match res {
                Option::Some(h) => hr_wf(h),
                Option::None => true,
            },
    {
        let mut t_near: Rat = t_min;
        let mut t_far: Option<Rat> = t_max;
        let mut face: u8 = 0;
        let ok0 = slab_axis(
            ray.origin.x,
            ray.direction.x,
            self.min.x,
            self.max.x,
            &mut t_near,
            &mut t_far,
            &mut face,
            0,
        );
        if !ok0 {
            return Option::None;
        }
        let ok1 = slab_axis(
            ray.origin.y,
            ray.direction.y,
            self.min.y,
            self.max.y,
            &mut t_near,
            &mut t_far,
            &mut face,
            1,
        );
        if !ok1 {
            return Option::None;
        }
        let ok2 = slab_axis(
            ray.origin.z,
            ray.direction.z,
            self.min.z,
            self.max.z,
            &mut t_near,
            &mut t_far,
            &mut face,
            2,
        );
        if !ok2 {
            return Option::None;
        }
        proof {
            assert(s_slab(*self, *ray, t_min, t_max) == Option::Some(
                (t_near, t_far, face as int),
            ));
        }
        if !t_min.le(&t_near) {
            return Option::None;
        }
        let in_bound: bool = match &t_max {
            Option::Some(tm) => t_near.le(tm),
            Option::None => true,
        };
        if !in_bound {
            return Option::None;
        }
        let hit_point = ray.at(&t_near);
        let normal = face_normal(face);
        let mut rec = HitRecord::new(hit_point, normal, t_near, self.color);
        rec.set_face_normal(ray, normal);
        if let Option::Some(tex) = &self.texture {
            let u: i64;
            let v: i64;
            if face < 2 {
                u = uv_coord(hit_point.z, self.min.z, self.max.z);
                v = uv_coord(hit_point.y, self.min.y, self.max.y);
            } else if face < 4 {
                u = uv_coord(hit_point.x, self.min.x, self.max.x);
                v = uv_coord(hit_point.z, self.min.z, self.max.z);
            } else {
                u = uv_coord(hit_point.x, self.min.x, self.max.x);
                v = uv_coord(hit_point.y, self.min.y, self.max.y);
            }
            rec.material_color = tex.sample(u, v);
        }
        Option::Some(rec)
    }
}

/// One axis of the executable slab pass; mirrors `s_slab_step`.
fn slab_axis(
    o: i64,
    d: i64,
    mn: i64,
    mx: i64,
    t_near: &mut Rat,
    t_far: &mut Option<Rat>,
    face: &mut u8,
    k: u8,
) -> (ok: bool)
    requires
        -ORIGIN_MAX <= o <= ORIGIN_MAX,
        -SCALE <= d <= SCALE,
        -COORD_MAX <= mn <= COORD_MAX,
        -COORD_MAX <= mx <= COORD_MAX,
        r_wf(*old(t_near)),
        opt_wf(*old(t_far)),
        *old(face) < 6,
        k < 3,
    ensures
        r_wf(*final(t_near)),
        opt_wf(*final(t_far)),
        *final(face) < 6,
        ok ==> s_slab_step(
            Option::Some((*old(t_near), *old(t_far), *old(face) as int)),
            o as int,
            d as int,
            mn as int,
            mx as int,
            k as int,
        ) == Option::Some((*final(t_near), *final(t_far), *final(face) as int)),
        !ok ==> s_slab_step(
            Option::Some((*old(t_near), *old(t_far), *old(face) as int)),
            o as int,
            d as int,
            mn as int,
            mx as int,
            k as int,
        ) is None,
{
    if d == 0 {
        if o < mn || o > mx {
            return false;
        }
        return true;
    }
    let e: Rat;
    let x: Rat;
    let ef: u8;
    if d > 0 {
        e = Rat { num: mn as i128 - o as i128, den: d as i128 };
        x = Rat { num: mx as i128 - o as i128, den: d as i128 };
        ef = 2 * k;
    } else {
        e = Rat { num: o as i128 - mx as i128, den: -(d as i128) };
        x = Rat { num: o as i128 - mn as i128, den: -(d as i128) };
        ef = 2 * k + 1;
    }
    proof {
        assert(e == s_axis_entry(o as int, d as int, mn as int, mx as int));
        assert(x == s_axis_exit(o as int, d as int, mn as int, mx as int));
        assert(r_wf(e) && r_wf(x));
    }
    let tn0: Rat = *t_near;
    if tn0.lt(&e) {
        *t_near = e;
        *face = ef;
    }
    let tf0: Option<Rat> = *t_far;
    let tf2: Rat = match tf0 {
        Option::Some(f) => if x.lt(&f) {
            x
        } else {
            f
        },
        Option::None => x,
    };
    *t_far = Option::Some(tf2);
    let tn1: Rat = *t_near;
    if tf2.lt(&tn1) {
        return false;
    }
    true
}

/// The executable outward normal of a face index.
fn face_normal(face: u8) -> (r: Vector3)
    ensures
        r@ == s_face_normal(face as int),
        s_within(r@, SCALE as int),
{
    if face == 0 {
        Vector3 { x: -SCALE, y: 0, z: 0 }
    } else if face == 1 {
        Vector3 { x: SCALE, y: 0, z: 0 }
    } else if face == 2 {
        Vector3 { x: 0, y: -SCALE, z: 0 }
    } else if face == 3 {
        Vector3 { x: 0, y: SCALE, z: 0 }
    } else if face == 4 {
        Vector3 { x: 0, y: 0, z: -SCALE }
    } else {
        Vector3 { x: 0, y: 0, z: SCALE }
    }
}

/// The executable unit-interval mapping of one hit coordinate.
fn uv_coord(p: i64, mn: i64, mx: i64) -> (r: i64)
    requires
        -COORD_MAX <= p <= COORD_MAX,
        -COORD_MAX <= mn <= COORD_MAX,
        -COORD_MAX <= mx <= COORD_MAX,
        mn < mx,
    ensures
        r == s_uv_coord(p as int, mn as int, mx as int),
        i64::MIN < r,
{
    proof {
        assert(-0x1_0000_0000_0000_0000_0000 <= ((p as int) - (mn as int)) * (SCALE as int)
            <= 0x1_0000_0000_0000_0000_0000) by (nonlinear_arith)
            requires
                -COORD_MAX <= p <= COORD_MAX,
                -COORD_MAX <= mn <= COORD_MAX,
        ;
    }
    let num: i128 = ((p as i128) - (mn as i128)) * (SCALE as i128);
    let den: i128 = (mx as i128) - (mn as i128);
    proof {
        assert(num <= 4_000_000_000_000_000_000 * den
            && -4_000_000_000_000_000_000 * den <= num) by (nonlinear_arith)
            requires
                num == ((p as int) - (mn as int)) * (SCALE as int),
                den == (mx as int) - (mn as int),
                -COORD_MAX <= p <= COORD_MAX,
                -COORD_MAX <= mn <= COORD_MAX,
                1 <= den,
        ;
        lemma_div_trunc_le(num as int, den as int, 4_000_000_000_000_000_000);
        lemma_div_trunc_ge(num as int, den as int, -4_000_000_000_000_000_000);
    }
    div_trunc_i128(num, den) as i64
}

/// The ground plane: a point, a unit normal and a flat color.
#[derive(Clone, Copy, Debug)]
pub struct Plane {
    pub point: Vector3,
    pub normal: Vector3,
    pub color: Vector3,
}

pub open spec fn plane_wf(p: Plane) -> bool {
    &&& s_within(p.point@, COORD_MAX as int)
    &&& s_within(p.normal@, SCALE as int)
    &&& !s_is_zero(p.normal@)
    &&& color_wf(p.color@)
}

/// The parallelism threshold of the plane test: a hundred-millionth of a
/// unit, expressed at the wide dot product's SCALE-squared resolution.
pub const PLANE_PARALLEL_EPS: i128 = 10_000;

/// What `Plane::hit` returns: the exact crossing distance of the ray
/// with the plane, when not parallel and within the search range. A wide
/// dot product under the hundred-millionth threshold counts as parallel.
pub open spec fn s_plane_hit(p: Plane, r: Ray, t_min: Rat, t_max: Option<Rat>) -> Option<
    HitRecord,
> {
    let denom = s_dot_wide(r.direction@, p.normal@);
    if -(PLANE_PARALLEL_EPS as int) < denom < PLANE_PARALLEL_EPS as int {
        Option::None
    } else {
        let num = s_dot_wide(s_sub(p.point@, r.origin@), p.normal@);
        let t = if denom > 0 {
            Rat { num: num as i128, den: denom as i128 }
        } else {
            Rat { num: (-num) as i128, den: (-denom) as i128 }
        };
        if r_le(t_min, t) && opt_le(t, t_max) {
            let hp = s_at(r, t);
            let ff = denom < 0;
            Option::Some(
                HitRecord {
                    point: v3(hp),
                    normal: v3(if ff { p.normal@ } else { s_neg(p.normal@) }),
                    t,
                    front_face: ff,
                    material_color: p.color,
                },
            )
        } else {
            Option::None
        }
    }
}

impl Plane {
    /// The stored normal is normalized whatever the caller passed.
    pub fn new(point: Vector3, normal: Vector3, color: Vector3) -> (r: Plane)
        requires
            s_within(point@, COORD_MAX as int),
            s_within(normal@, VNORM_MAX as int),
            !s_is_zero(normal@),
            color_wf(color@),
        ensures
            r.point == point,
            r.normal@ == s_normalize(normal@),
            r.color == color,
            plane_wf(r),
    {
        Plane { point, normal: normal.normalize(), color }
    }

    /// Ray-plane intersection; a ray whose direction lies within a
    /// hundred-millionth of a unit of the plane's own directions (a wide
    /// dot product under the threshold) counts as parallel and misses.
    pub fn hit(&self, ray: &Ray, t_min: Rat, t_max: Option<Rat>) -> (res: Option<HitRecord>)
        requires
            plane_wf(*self),
            ray_wf(*ray),
            r_wf(t_min),
            opt_wf(t_max),
        ensures
            res == s_plane_hit(*self, *ray, t_min, t_max),
            match res {
                Option::Some(h) => hr_wf(h),
                Option::None => true,
            },
    {
        let denom: i128 = ray.direction.dot_wide(&self.normal);
        if -PLANE_PARALLEL_EPS < denom && denom < PLANE_PARALLEL_EPS {
            return Option::None;
        }
        let diff = self.point.sub(&ray.origin);
        let num: i128 = diff.dot_wide(&self.normal);
        proof {
            assert(-(RAT_MAX) <= num <= RAT_MAX && -(RAT_MAX) <= denom <= RAT_MAX)
                by (nonlinear_arith)
                requires
                    num == s_dot_wide(diff@, self.normal@),
                    denom == s_dot_wide(ray.direction@, self.normal@),
                    s_within(diff@, (COORD_MAX + ORIGIN_MAX) as int),
                    s_within(ray.direction@, SCALE as int),
                    s_within(self.normal@, SCALE as int),
            ;
        }
        let t: Rat = Rat::new(num, denom);
        let in_range: bool = if t_min.le(&t) {
            match &t_max {
                Option::Some(tm) => t.le(tm),
                Option::None => true,
            }
        } else {
            false
        };
        if !in_range {
            return Option::None;
        }
        let hit_point = ray.at(&t);
        let mut rec = HitRecord::new(hit_point, self.normal, t, self.color);
        rec.set_face_normal(ray, self.normal);
        proof {
            lemma_dot_wide_comm(ray.direction@, self.normal@);
        }
        Option::Some(rec)
    }
}

/// The wide dot product does not depend on the argument order.
proof fn lemma_dot_wide_comm(a: (int, int, int), b: (int, int, int))
    by (nonlinear_arith)
    ensures
        s_dot_wide(a, b) == s_dot_wide(b, a),
{
}

} // verus!
