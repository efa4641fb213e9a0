//! Geometric laws of the intersection code, proved against the spec
//! mirrors: a hit of the slab test always lies inside the cube's extent
//! and within the search range, a ray that stays outside the extent on
//! one axis never hits, the returned distance is a slab entry, the hit
//! normal is cardinal and opposes the ray, a straight-down ray meets the
//! ground at its starting height, and the corner rays of the camera
//! reproduce the viewport corners exactly.

use vstd::prelude::*;
use crate::fixed::SCALE;
use crate::fixed::COORD_MAX;
use crate::fixed::ORIGIN_MAX;
use crate::fixed::div_trunc;
use crate::fixed::lemma_div_trunc_exact;
use crate::vec3::s_within;
use crate::vec3::s_add;
use crate::vec3::s_sub;
use crate::vec3::s_scale;
use crate::vec3::s_neg;
use crate::vec3::s_dot_wide;
use crate::rat::Rat;
use crate::rat::r_wf;
use crate::rat::r_le;
use crate::rat::r_eq;
use crate::rat::lemma_r_le_trans;
use crate::ray::Ray;
use crate::ray::ray_wf;
use crate::ray::HitRecord;
use crate::cube::Cube;
use crate::cube::cube_wf;
use crate::cube::opt_wf;
use crate::cube::opt_le;
use crate::cube::s_axis_entry;
use crate::cube::s_axis_exit;
use crate::cube::s_slab_step;
use crate::cube::s_slab;
use crate::cube::s_cube_hit;
use crate::cube::s_face_normal;
use crate::cube::Plane;
use crate::cube::plane_wf;
use crate::cube::s_plane_hit;
use crate::camera::Camera;
use crate::camera::cam_wf;
use crate::camera::s_ray_dir;
use crate::raytracer::Scene;
use crate::raytracer::scene_wf;
use crate::raytracer::s_shadow_ray;
use crate::raytracer::s_is_in_shadow;
use crate::raytracer::s_t_epsilon;

verus! {

/// Component `k` of a triple.
pub open spec fn axc(v: (int, int, int), k: int) -> int {
    if k == 0 {
        v.0
    } else if k == 1 {
        v.1
    } else {
        v.2
    }
}

/// The point the ray reaches after exactly `t` lies inside the cube's
/// extent on axis `k`, stated multiplicatively over the exact rational.
pub open spec fn inside_on_axis(c: Cube, r: Ray, k: int, t: Rat) -> bool {
    axc(c.min@, k) * t.den <= axc(r.origin@, k) * t.den + axc(r.direction@, k) * t.num
        <= axc(c.max@, k) * t.den
}

/// The same for an arbitrary rational `num / den`, den positive.
pub open spec fn outside_on_axis(c: Cube, r: Ray, k: int, num: int, den: int) -> bool {
    axc(r.origin@, k) * den + axc(r.direction@, k) * num < axc(c.min@, k) * den || axc(
        r.origin@,
        k,
    ) * den + axc(r.direction@, k) * num > axc(c.max@, k) * den
}

/// `num / den` lies within the search range.
pub open spec fn t_in_range(num: int, den: int, t_min: Rat, t_max: Option<Rat>) -> bool {
    &&& t_min.num * den <= num * t_min.den
    &&& match t_max {
        Option::Some(m) => num * m.den <= m.num * den,
        Option::None => true,
    }
}

/// A vector of unit magnitude along one coordinate axis.
pub open spec fn is_cardinal(n: (int, int, int)) -> bool {
    ||| n == ((SCALE as int), 0int, 0int)
    ||| n == (-(SCALE as int), 0int, 0int)
    ||| n == (0int, (SCALE as int), 0int)
    ||| n == (0int, -(SCALE as int), 0int)
    ||| n == (0int, 0int, (SCALE as int))
    ||| n == (0int, 0int, -(SCALE as int))
}

/// What one slab step guarantees: the lower end only grows, the upper
/// end only shrinks, a non-parallel axis brackets the interval between
/// its entry and exit distances, and a parallel axis passes through the
/// state untouched with the origin inside its slab.
proof fn lemma_step_props(
    st: (Rat, Option<Rat>, int),
    o: int,
    d: int,
    mn: int,
    mx: int,
    k: int,
    out: (Rat, Option<Rat>, int),
)
    requires
        r_wf(st.0),
        opt_wf(st.1),
        -(ORIGIN_MAX as int) <= o <= ORIGIN_MAX as int,
        -(SCALE as int) <= d <= SCALE as int,
        -(COORD_MAX as int) <= mn <= COORD_MAX as int,
        -(COORD_MAX as int) <= mx <= COORD_MAX as int,
        s_slab_step(Option::Some(st), o, d, mn, mx, k) == Option::Some(out),
    ensures
        r_wf(out.0),
        opt_wf(out.1),
        r_le(st.0, out.0),
        match (st.1, out.1) {
            (Option::Some(f0), Option::Some(f1)) => r_le(f1, f0),
            (Option::None, _) => true,
            (Option::Some(f0), Option::None) => false,
        },
        out.0 == st.0 || (d != 0 && out.0 == s_axis_entry(o, d, mn, mx)),
        d != 0 ==> match out.1 {
            Option::Some(f1) => r_le(s_axis_entry(o, d, mn, mx), out.0) && r_le(
                f1,
                s_axis_exit(o, d, mn, mx),
            ) && r_le(out.0, f1),
            Option::None => false,
        },
        d == 0 ==> out == st && mn <= o <= mx,
        (match st.1 {
            Option::Some(f0) => r_le(st.0, f0),
            Option::None => true,
        }) ==> match out.1 {
            Option::Some(f1) => r_le(out.0, f1),
            Option::None => true,
        },
{
    if d == 0 {
    } else {
        let e = s_axis_entry(o, d, mn, mx);
        let x = s_axis_exit(o, d, mn, mx);
        assert(r_wf(e) && r_wf(x));
    }
}

/// Every accepted hit distance lies inside the cube on every axis and
/// within the search range, and is either the lower search bound or the
/// slab entry distance of one axis (the smaller root of that axis).
pub proof fn lemma_cube_hit_inside(
    c: Cube,
    r: Ray,
    t_min: Rat,
    t_max: Option<Rat>,
    h: HitRecord,
)
    requires
        cube_wf(c),
        ray_wf(r),
        r_wf(t_min),
        opt_wf(t_max),
        s_cube_hit(c, r, t_min, t_max) == Option::Some(h),
    ensures
        r_wf(h.t),
        r_le(t_min, h.t),
        opt_le(h.t, t_max),
        forall|k: int| 0 <= k < 3 ==> inside_on_axis(c, r, k, h.t),
        h.t == t_min || h.t == s_axis_entry(
            r.origin.x as int,
            r.direction.x as int,
            c.min.x as int,
            c.max.x as int,
        ) || h.t == s_axis_entry(
            r.origin.y as int,
            r.direction.y as int,
            c.min.y as int,
            c.max.y as int,
        ) || h.t == s_axis_entry(
            r.origin.z as int,
            r.direction.z as int,
            c.min.z as int,
            c.max.z as int,
        ),
{
    let st0 = (t_min, t_max, 0int);
    let s1 = s_slab_step(
        Option::Some(st0),
        r.origin.x as int,
        r.direction.x as int,
        c.min.x as int,
        c.max.x as int,
        0,
    );
    let st1 = s1->Some_0;
    assert(s1 is Some);
    lemma_step_props(
        st0,
        r.origin.x as int,
        r.direction.x as int,
        c.min.x as int,
        c.max.x as int,
        0,
        st1,
    );
    let s2 = s_slab_step(
        s1,
        r.origin.y as int,
        r.direction.y as int,
        c.min.y as int,
        c.max.y as int,
        1,
    );
    let st2 = s2->Some_0;
    assert(s2 is Some);
    lemma_step_props(
        st1,
        r.origin.y as int,
        r.direction.y as int,
        c.min.y as int,
        c.max.y as int,
        1,
        st2,
    );
    let s3 = s_slab(c, r, t_min, t_max);
    let st3 = s3->Some_0;
    assert(s3 is Some);
    lemma_step_props(
        st2,
        r.origin.z as int,
        r.direction.z as int,
        c.min.z as int,
        c.max.z as int,
        2,
        st3,
    );
    assert(h.t == st3.0);
    lemma_r_le_trans(st0.0, st1.0, st2.0);
    lemma_r_le_trans(st0.0, st2.0, st3.0);
    assert forall|k: int| 0 <= k < 3 implies inside_on_axis(c, r, k, h.t) by {
        let o = axc(r.origin@, k);
        let d = axc(r.direction@, k);
        let mn = axc(c.min@, k);
        let mx = axc(c.max@, k);
        if d == 0 {
            assert(mn <= o <= mx);
            assert(mn * h.t.den <= o * h.t.den + d * h.t.num <= mx * h.t.den)
                by (nonlinear_arith)
                requires
                    mn <= o <= mx,
                    d == 0,
                    h.t.den > 0,
            ;
        } else {
            let e = s_axis_entry(o, d, mn, mx);
            let x = s_axis_exit(o, d, mn, mx);
            let fin = st3.1->Some_0;
            assert(r_wf(e) && r_wf(x) && r_wf(fin));
            if k == 0 {
                lemma_r_le_trans(e, st1.0, st2.0);
                lemma_r_le_trans(e, st2.0, st3.0);
                let f1 = st1.1->Some_0;
                let f2 = st2.1->Some_0;
                assert(r_wf(f1) && r_wf(f2));
                lemma_r_le_trans(st3.0, fin, f2);
                lemma_r_le_trans(st3.0, f2, f1);
                lemma_r_le_trans(st3.0, f1, x);
            } else if k == 1 {
                lemma_r_le_trans(e, st2.0, st3.0);
                let f2 = st2.1->Some_0;
                assert(r_wf(f2));
                lemma_r_le_trans(st3.0, fin, f2);
                lemma_r_le_trans(st3.0, f2, x);
            } else {
                lemma_r_le_trans(st3.0, fin, x);
            }
            lemma_axis_contained(o, d, mn, mx, h.t);
        }
    }
}

/// Bracketing between a slab's entry and exit distances puts the exact
/// crossing point inside the slab, in cross-multiplied form.
proof fn lemma_axis_contained(o: int, d: int, mn: int, mx: int, t: Rat)
    requires
        d != 0,
        -(SCALE as int) <= d <= SCALE as int,
        -(ORIGIN_MAX as int) <= o <= ORIGIN_MAX as int,
        -(COORD_MAX as int) <= mn <= COORD_MAX as int,
        -(COORD_MAX as int) <= mx <= COORD_MAX as int,
        r_wf(t),
        r_le(s_axis_entry(o, d, mn, mx), t),
        r_le(t, s_axis_exit(o, d, mn, mx)),
    ensures
        mn * t.den <= o * t.den + d * t.num <= mx * t.den,
{
    if d > 0 {
        assert(mn * t.den <= o * t.den + d * t.num && o * t.den + d * t.num <= mx * t.den)
            by (nonlinear_arith)
            requires
                (mn - o) * t.den <= t.num * d,
                t.num * d <= (mx - o) * t.den,
                t.den > 0,
        ;
    } else {
        assert(mn * t.den <= o * t.den + d * t.num && o * t.den + d * t.num <= mx * t.den)
            by (nonlinear_arith)
            requires
                (o - mx) * t.den <= t.num * (-d),
                t.num * (-d) <= (o - mn) * t.den,
                t.den > 0,
        ;
    }
}

/// A ray whose direction is nonzero on every axis and whose path stays
/// outside the cube's extent on some axis over the whole search range
/// never hits the cube.
pub proof fn lemma_cube_miss_outside(c: Cube, r: Ray, t_min: Rat, t_max: Option<Rat>, k: int)
    requires
        cube_wf(c),
        ray_wf(r),
        r_wf(t_min),
        opt_wf(t_max),
        0 <= k < 3,
        r.direction.x != 0 && r.direction.y != 0 && r.direction.z != 0,
        forall|num: int, den: int|
            0 < den && t_in_range(num, den, t_min, t_max) ==> #[trigger] outside_on_axis(
                c,
                r,
                k,
                num,
                den,
            ),
    ensures
        s_cube_hit(c, r, t_min, t_max) is None,
{
    if s_cube_hit(c, r, t_min, t_max) is Some {
        let h = s_cube_hit(c, r, t_min, t_max)->Some_0;
        lemma_cube_hit_inside(c, r, t_min, t_max, h);
        assert(inside_on_axis(c, r, k, h.t));
        assert(t_in_range(h.t.num as int, h.t.den as int, t_min, t_max));
        assert(outside_on_axis(c, r, k, h.t.num as int, h.t.den as int));
    }
}

/// A cube hit's normal is a cardinal unit vector that opposes the ray.
pub proof fn lemma_cube_hit_normal(c: Cube, r: Ray, t_min: Rat, t_max: Option<Rat>, h: HitRecord)
    requires
        cube_wf(c),
        ray_wf(r),
        r_wf(t_min),
        opt_wf(t_max),
        s_cube_hit(c, r, t_min, t_max) == Option::Some(h),
    ensures
        is_cardinal(h.normal@),
        s_dot_wide(r.direction@, h.normal@) <= 0,
{
    let st3 = s_slab(c, r, t_min, t_max)->Some_0;
    let n = s_face_normal(st3.2);
    assert(is_cardinal(n));
    let ff = s_dot_wide(r.direction@, n) < 0;
    if ff {
        assert(h.normal@ == n);
    } else {
        assert(h.normal@ == s_neg(n));
        assert(s_dot_wide(r.direction@, s_neg(n)) == -s_dot_wide(r.direction@, n))
            by (nonlinear_arith);
    }
}

/// A ray pointed straight down from a height of at least the epsilon
/// bound meets the ground plane at a distance exactly equal to that
/// height, and the hit point sits on the plane.
pub proof fn lemma_plane_down_ray(p: Plane, r: Ray, t_min: Rat)
    requires
        plane_wf(p),
        ray_wf(r),
        p.point.y == 0,
        p.normal@ == (0int, SCALE as int, 0int),
        r.direction@ == (0int, -(SCALE as int), 0int),
        r.origin.y >= 1000,
        t_min == (Rat { num: 1000, den: 1_000_000 }),
    ensures
        s_plane_hit(p, r, t_min, Option::None) is Some,
        r_eq(
            (s_plane_hit(p, r, t_min, Option::None)->Some_0).t,
            Rat { num: r.origin.y as i128, den: SCALE as i128 },
        ),
        (s_plane_hit(p, r, t_min, Option::None)->Some_0).point.y == 0,
        (s_plane_hit(p, r, t_min, Option::None)->Some_0).front_face,
{
    let s = (SCALE as int);
    let oy = r.origin.y as int;
    let denom = s_dot_wide(r.direction@, p.normal@);
    assert(denom == -(s * s)) by (nonlinear_arith)
        requires
            denom == 0 * 0 + (-s) * s + 0 * 0,
    ;
    let diff = s_sub(p.point@, r.origin@);
    assert(diff.1 == -oy);
    let num = s_dot_wide(diff, p.normal@);
    assert(num == -(oy * s)) by (nonlinear_arith)
        requires
            num == diff.0 * 0 + diff.1 * s + diff.2 * 0,
            diff.1 == -oy,
    ;
    assert(s * s == 1_000_000_000_000 && 1_000_000_000 <= oy * s
        <= 0x10_0000_0000_0000_0000_0000) by (nonlinear_arith)
        requires
            s == 1_000_000,
            1000 <= oy <= ORIGIN_MAX as int,
    ;
    let t = Rat { num: (oy * s) as i128, den: (s * s) as i128 };
    assert(t.num == oy * s && t.den == s * s);
    assert(r_le(t_min, t)) by (nonlinear_arith)
        requires
            t.num == oy * s,
            t.den == s * s,
            t_min.num == 1000,
            t_min.den == 1_000_000,
            s == 1_000_000,
            oy >= 1000,
    ;
    let target = Rat { num: oy as i128, den: s as i128 };
    assert(target.num == oy && target.den == s);
    assert(r_eq(t, target)) by (nonlinear_arith)
        requires
            t.num == oy * s,
            t.den == s * s,
            target.num == oy,
            target.den == s,
    ;
    let h = s_plane_hit(p, r, t_min, Option::None)->Some_0;
    assert(h.t == t);
    assert(div_trunc((-s) * t.num, t.den as int) == -oy) by {
        assert((-s) * (oy * s) == (-oy) * (s * s)) by (nonlinear_arith);
        lemma_div_trunc_exact(-oy, s * s);
    }
    assert(h.point.y == 0);
}

/// The corner rays reproduce the viewport corners exactly: at the four
/// extreme screen coordinates the unnormalized ray direction equals the
/// lower-left corner shifted by nothing, the horizontal span, the
/// vertical span, or both, minus the camera position.
pub proof fn lemma_corner_rays(c: Camera)
    requires
        cam_wf(c),
    ensures
        s_ray_dir(c, 0, 0) == s_sub(c.lower_left_corner@, c.position@),
        s_ray_dir(c, SCALE as int, 0) == s_sub(
            s_add(c.lower_left_corner@, c.horizontal@),
            c.position@,
        ),
        s_ray_dir(c, 0, SCALE as int) == s_sub(
            s_add(c.lower_left_corner@, c.vertical@),
            c.position@,
        ),
        s_ray_dir(c, SCALE as int, SCALE as int) == s_sub(
            s_add(s_add(c.lower_left_corner@, c.horizontal@), c.vertical@),
            c.position@,
        ),
{
    lemma_scale_zero(c.horizontal@);
    lemma_scale_zero(c.vertical@);
    crate::vec3::lemma_scale_identity(c.horizontal@);
    crate::vec3::lemma_scale_identity(c.vertical@);
}

/// Scaling by zero gives the zero vector.
proof fn lemma_scale_zero(a: (int, int, int))
    ensures
        s_scale(a, 0) == (0int, 0int, 0int),
{
    assert(a.0 * 0 == 0) by (nonlinear_arith);
    assert(a.1 * 0 == 0) by (nonlinear_arith);
    assert(a.2 * 0 == 0) by (nonlinear_arith);
}

/// The ray is strictly between the two bounding planes of axis `k` at
/// exactly `t`.
pub open spec fn strictly_inside_on_axis(c: Cube, r: Ray, k: int, t: Rat) -> bool {
    axc(c.min@, k) * t.den < axc(r.origin@, k) * t.den + axc(r.direction@, k) * t.num
        < axc(c.max@, k) * t.den
}

/// Strict interiority brackets `t` strictly between a slab's entry and
/// exit distances.
proof fn lemma_axis_strict(o: int, d: int, mn: int, mx: int, t: Rat)
    requires
        d != 0,
        r_wf(t),
        -(SCALE as int) <= d <= SCALE as int,
        -(ORIGIN_MAX as int) <= o <= ORIGIN_MAX as int,
        -(COORD_MAX as int) <= mn <= COORD_MAX as int,
        -(COORD_MAX as int) <= mx <= COORD_MAX as int,
        mn * t.den < o * t.den + d * t.num < mx * t.den,
    ensures
        crate::rat::r_lt(s_axis_entry(o, d, mn, mx), t),
        crate::rat::r_lt(t, s_axis_exit(o, d, mn, mx)),
{
    if d > 0 {
        assert((mn - o) * t.den < t.num * d && t.num * d < (mx - o) * t.den)
            by (nonlinear_arith)
            requires
                mn * t.den < o * t.den + d * t.num < mx * t.den,
                t.den > 0,
        ;
    } else {
        assert((o - mx) * t.den < t.num * (-d) && t.num * (-d) < (o - mn) * t.den)
            by (nonlinear_arith)
            requires
                mn * t.den < o * t.den + d * t.num < mx * t.den,
                t.den > 0,
        ;
    }
}

/// A slab step never rejects a ray that is strictly inside its axis at a
/// distance the running interval still brackets, and the new interval
/// still brackets that distance.
proof fn lemma_step_keeps(
    st: (Rat, Option<Rat>, int),
    o: int,
    d: int,
    mn: int,
    mx: int,
    k: int,
    tw: Rat,
)
    requires
        r_wf(st.0),
        opt_wf(st.1),
        r_wf(tw),
        -(ORIGIN_MAX as int) <= o <= ORIGIN_MAX as int,
        -(SCALE as int) <= d <= SCALE as int,
        -(COORD_MAX as int) <= mn <= COORD_MAX as int,
        -(COORD_MAX as int) <= mx <= COORD_MAX as int,
        r_le(st.0, tw),
        match st.1 {
            Option::Some(f) => r_le(tw, f),
            Option::None => true,
        },
        mn * tw.den < o * tw.den + d * tw.num < mx * tw.den,
    ensures
        s_slab_step(Option::Some(st), o, d, mn, mx, k) is Some,
        r_le((s_slab_step(Option::Some(st), o, d, mn, mx, k)->Some_0).0, tw),
        match (s_slab_step(Option::Some(st), o, d, mn, mx, k)->Some_0).1 {
            Option::Some(f) => r_le(tw, f),
            Option::None => true,
        },
{
    if d == 0 {
        assert(mn < o < mx) by (nonlinear_arith)
            requires
                mn * tw.den < o * tw.den + d * tw.num < mx * tw.den,
                d == 0,
                tw.den > 0,
        ;
    } else {
        let e = s_axis_entry(o, d, mn, mx);
        let x = s_axis_exit(o, d, mn, mx);
        assert(r_wf(e) && r_wf(x));
        lemma_axis_strict(o, d, mn, mx, tw);
        let tn2 = if crate::rat::r_lt(st.0, e) {
            e
        } else {
            st.0
        };
        let tf2 = match st.1 {
            Option::None => x,
            Option::Some(f) => if crate::rat::r_lt(x, f) {
                x
            } else {
                f
            },
        };
        assert(r_wf(tn2) && r_wf(tf2));
        assert(r_le(tn2, tw));
        assert(r_le(tw, tf2));
        lemma_r_le_trans(tn2, tw, tf2);
    }
}

/// A ray whose path is strictly inside the cube on every axis at some
/// distance within the search range always hits the cube.
pub proof fn lemma_cube_hit_through(c: Cube, r: Ray, t_min: Rat, t_max: Option<Rat>, tw: Rat)
    requires
        cube_wf(c),
        ray_wf(r),
        r_wf(t_min),
        opt_wf(t_max),
        r_wf(tw),
        r_le(t_min, tw),
        opt_le(tw, t_max),
        forall|k: int| 0 <= k < 3 ==> #[trigger] strictly_inside_on_axis(c, r, k, tw),
    ensures
        s_cube_hit(c, r, t_min, t_max) is Some,
{
    let st0 = (t_min, t_max, 0int);
    assert(strictly_inside_on_axis(c, r, 0, tw));
    assert(strictly_inside_on_axis(c, r, 1, tw));
    assert(strictly_inside_on_axis(c, r, 2, tw));
    let s1 = s_slab_step(
        Option::Some(st0),
        r.origin.x as int,
        r.direction.x as int,
        c.min.x as int,
        c.max.x as int,
        0,
    );
    lemma_step_keeps(
        st0,
        r.origin.x as int,
        r.direction.x as int,
        c.min.x as int,
        c.max.x as int,
        0,
        tw,
    );
    let st1 = s1->Some_0;
    lemma_step_props(
        st0,
        r.origin.x as int,
        r.direction.x as int,
        c.min.x as int,
        c.max.x as int,
        0,
        st1,
    );
    let s2 = s_slab_step(
        s1,
        r.origin.y as int,
        r.direction.y as int,
        c.min.y as int,
        c.max.y as int,
        1,
    );
    lemma_step_keeps(
        st1,
        r.origin.y as int,
        r.direction.y as int,
        c.min.y as int,
        c.max.y as int,
        1,
        tw,
    );
    let st2 = s2->Some_0;
    lemma_step_props(
        st1,
        r.origin.y as int,
        r.direction.y as int,
        c.min.y as int,
        c.max.y as int,
        1,
        st2,
    );
    let s3 = s_slab(c, r, t_min, t_max);
    lemma_step_keeps(
        st2,
        r.origin.z as int,
        r.direction.z as int,
        c.min.z as int,
        c.max.z as int,
        2,
        tw,
    );
    let st3 = s3->Some_0;
    lemma_step_props(
        st2,
        r.origin.z as int,
        r.direction.z as int,
        c.min.z as int,
        c.max.z as int,
        2,
        st3,
    );
    lemma_r_le_trans(t_min, st1.0, st2.0);
    lemma_r_le_trans(t_min, st2.0, st3.0);
    match t_max {
        Option::Some(m) => {
            lemma_r_le_trans(st3.0, tw, m);
        },
        Option::None => {},
    }
}

/// Moving the light so that the shadow probe's path crosses the cube's
/// interior puts the point in shadow.
pub proof fn lemma_shadow_blocked(s: Scene, point: (int, int, int), ld: (int, int, int), tw: Rat)
    requires
        scene_wf(s),
        s_within(point, COORD_MAX as int),
        s_within(ld, SCALE as int),
        !crate::vec3::s_is_zero(ld),
        r_wf(tw),
        r_le(s_t_epsilon(), tw),
        forall|k: int|
            0 <= k < 3 ==> #[trigger] strictly_inside_on_axis(
                s.cube,
                s_shadow_ray(point, ld),
                k,
                tw,
            ),
    ensures
        s_is_in_shadow(s, point, ld),
{
    lemma_shadow_ray_wf(point, ld);
    lemma_cube_hit_through(s.cube, s_shadow_ray(point, ld), s_t_epsilon(), Option::None, tw);
}

/// Rotating the light so that the shadow probe's path stays outside the
/// cube on some axis clears the shadow.
pub proof fn lemma_shadow_clear(s: Scene, point: (int, int, int), ld: (int, int, int), k: int)
    requires
        scene_wf(s),
        s_within(point, COORD_MAX as int),
        s_within(ld, SCALE as int),
        !crate::vec3::s_is_zero(ld),
        0 <= k < 3,
        s_shadow_ray(point, ld).direction.x != 0,
        s_shadow_ray(point, ld).direction.y != 0,
        s_shadow_ray(point, ld).direction.z != 0,
        forall|num: int, den: int|
            0 < den && t_in_range(num, den, s_t_epsilon(), Option::None)
                ==> #[trigger] outside_on_axis(s.cube, s_shadow_ray(point, ld), k, num, den),
    ensures
        !s_is_in_shadow(s, point, ld),
{
    lemma_shadow_ray_wf(point, ld);
    lemma_cube_miss_outside(s.cube, s_shadow_ray(point, ld), s_t_epsilon(), Option::None, k);
}

/// The shadow probe is a well-formed ray for any point in coordinate
/// range and any nonzero unit-bounded light direction.
proof fn lemma_shadow_ray_wf(point: (int, int, int), ld: (int, int, int))
    requires
        s_within(point, COORD_MAX as int),
        s_within(ld, SCALE as int),
        !crate::vec3::s_is_zero(ld),
    ensures
        ray_wf(s_shadow_ray(point, ld)),
{
    crate::vec3::lemma_scale_within(ld, 1000, SCALE as int, 1000);
    crate::vec3::lemma_normalize_within(ld);
}

} // verus!
