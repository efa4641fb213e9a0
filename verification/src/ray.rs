//! Rays and hit records. A ray's direction is normalized at construction;
//! evaluating a ray at an exact rational distance saturates into the
//! representable coordinate range.

use vstd::prelude::*;
use crate::fixed::SCALE;
use crate::fixed::COORD_MAX;
use crate::fixed::ORIGIN_MAX;
use crate::fixed::div_trunc;
use crate::fixed::div_trunc_i128;
use crate::fixed::sat_coord;
use crate::fixed::lemma_div_trunc_le;
use crate::fixed::lemma_div_trunc_ge;
use crate::vec3::Vector3;
use crate::vec3::VNORM_MAX;
use crate::vec3::s_within;
use crate::vec3::s_is_zero;
use crate::vec3::s_normalize;
use crate::vec3::s_neg;
use crate::vec3::s_dot_wide;
use crate::rat::Rat;
use crate::rat::r_wf;

verus! {

#[derive(Clone, Copy, Debug)]
pub struct Ray {
    pub origin: Vector3,
    pub direction: Vector3,
}

/// A well-formed ray: origin in the nudged coordinate range, direction of
/// at most unit magnitude per component (the zero direction is allowed;
/// it hits nothing that the origin is not already inside of).
pub open spec fn ray_wf(r: Ray) -> bool {
    &&& s_within(r.origin@, ORIGIN_MAX as int)
    &&& s_within(r.direction@, SCALE as int)
}

/// The point a ray reaches after `num/den` units, each component
/// truncated and saturated.
pub open spec fn s_at(r: Ray, t: Rat) -> (int, int, int) {
    (
        sat_coord(r.origin.x + div_trunc(r.direction.x * t.num, t.den as int)),
        sat_coord(r.origin.y + div_trunc(r.direction.y * t.num, t.den as int)),
        sat_coord(r.origin.z + div_trunc(r.direction.z * t.num, t.den as int)),
    )
}

impl Ray {
    /// The direction is normalized whatever the caller passed, as long as
    /// it is not the zero vector.
    pub fn new(origin: Vector3, direction: Vector3) -> (r: Ray)
        requires
            s_within(origin@, ORIGIN_MAX as int),
            s_within(direction@, VNORM_MAX as int),
            !s_is_zero(direction@),
        ensures
            r.origin == origin,
            r.direction@ == s_normalize(direction@),
            ray_wf(r),
            !s_is_zero(r.direction@),
    {
        Ray { origin, direction: direction.normalize() }
    }

    /// Ray evaluation: origin plus direction times the rational distance.
    pub fn at(&self, t: &Rat) -> (r: Vector3)
        requires
            ray_wf(*self),
            r_wf(*t),
        ensures
            r@ == s_at(*self, *t),
            s_within(r@, COORD_MAX as int),
    {
        Vector3 {
            x: at_comp(self.origin.x, self.direction.x, t),
            y: at_comp(self.origin.y, self.direction.y, t),
            z: at_comp(self.origin.z, self.direction.z, t),
        }
    }
}

/// One component of `Ray::at`.
fn at_comp(o: i64, d: i64, t: &Rat) -> (r: i64)
    requires
        -ORIGIN_MAX <= o <= ORIGIN_MAX,
        -SCALE <= d <= SCALE,
        r_wf(*t),
    ensures
        r == sat_coord(o + div_trunc(d * t.num, t.den as int)),
        -COORD_MAX <= r <= COORD_MAX,
{
    proof {
        assert(-0x10_0000_0000_0000_0000_0000_0000 < (d as int) * t.num
            < 0x10_0000_0000_0000_0000_0000_0000) by (nonlinear_arith)
            requires
                -SCALE <= d <= SCALE,
                -(crate::rat::RAT_MAX as int) <= t.num <= crate::rat::RAT_MAX as int,
        ;
        assert((d as int) * t.num <= 0x10_0000_0000_0000_0000_0000_0000 * t.den
            && -0x10_0000_0000_0000_0000_0000_0000 * t.den <= (d as int) * t.num)
            by (nonlinear_arith)
            requires
                1 <= t.den,
                -0x10_0000_0000_0000_0000_0000_0000 < (d as int) * t.num
                    < 0x10_0000_0000_0000_0000_0000_0000,
        ;
        lemma_div_trunc_le((d as int) * t.num, t.den as int, 0x10_0000_0000_0000_0000_0000_0000);
        lemma_div_trunc_ge((d as int) * t.num, t.den as int, -0x10_0000_0000_0000_0000_0000_0000);
    }
    let p: i128 = (d as i128) * t.num;
    let q: i128 = div_trunc_i128(p, t.den);
    let s: i128 = (o as i128) + q;
    if s > COORD_MAX as i128 {
        COORD_MAX
    } else if s < -(COORD_MAX as i128) {
        -COORD_MAX
    } else {
        s as i64
    }
}

/// Colors carry channels in `[0, SCALE]`, the unit interval.
pub open spec fn color_wf(c: (int, int, int)) -> bool {
    &&& 0 <= c.0 <= SCALE as int
    &&& 0 <= c.1 <= SCALE as int
    &&& 0 <= c.2 <= SCALE as int
}

#[derive(Clone, Copy, Debug)]
pub struct HitRecord {
    pub point: Vector3,
    pub normal: Vector3,
    pub t: Rat,
    pub front_face: bool,
    pub material_color: Vector3,
}

/// A well-formed hit record: saturated point, unit-bounded normal, exact
/// well-formed distance and a unit-interval color.
pub open spec fn hr_wf(h: HitRecord) -> bool {
    &&& s_within(h.point@, COORD_MAX as int)
    &&& s_within(h.normal@, SCALE as int)
    &&& r_wf(h.t)
    &&& color_wf(h.material_color@)
}

impl HitRecord {
    pub fn new(point: Vector3, normal: Vector3, t: Rat, material_color: Vector3) -> (r:
        HitRecord)
        ensures
            r.point == point,
            r.normal == normal,
            r.t == t,
            r.front_face == true,
            r.material_color == material_color,
    {
        HitRecord { point, normal, t, front_face: true, material_color }
    }

    /// Record whether the outward normal opposes the ray and flip it if it
    /// does not, so the stored normal never points along the ray.
    pub fn set_face_normal(&mut self, ray: &Ray, outward_normal: Vector3)
        requires
            ray_wf(*ray),
            s_within(outward_normal@, SCALE as int),
        ensures
            final(self).front_face == (s_dot_wide(ray.direction@, outward_normal@) < 0),
            final(self).normal@ == if s_dot_wide(ray.direction@, outward_normal@) < 0 {
                outward_normal@
            } else {
                s_neg(outward_normal@)
            },
            s_within(final(self).normal@, SCALE as int),
            s_dot_wide(ray.direction@, final(self).normal@) <= 0,
            final(self).point == old(self).point,
            final(self).t == old(self).t,
            final(self).material_color == old(self).material_color,
    {
        let d = ray.direction.dot_wide(&outward_normal);
        self.front_face = d < 0;
        if d < 0 {
            self.normal = outward_normal;
        } else {
            self.normal = outward_normal.neg();
        }
        proof {
            lemma_dot_wide_neg(ray.direction@, outward_normal@);
        }
    }
}

/// Negating one argument negates the wide dot product.
proof fn lemma_dot_wide_neg(a: (int, int, int), b: (int, int, int))
    by (nonlinear_arith)
    ensures
        s_dot_wide(a, s_neg(b)) == -s_dot_wide(a, b),
{
}

} // verus!
