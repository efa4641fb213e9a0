//! Three-component fixed-point vectors, used as points, directions and
//! RGB colors alike. Every operation states exactly which integer value
//! it produces, over the truncating arithmetic of `fixed`.

use vstd::prelude::*;
use crate::fixed::SCALE;
use crate::fixed::div_trunc;
use crate::fixed::div_trunc_i128;
use crate::fixed::isqrt;
use crate::fixed::is_sqrt;
use crate::fixed::sqrt_of;
use crate::fixed::lemma_sqrt_of;
use crate::fixed::lemma_div_trunc_le;
use crate::fixed::lemma_div_trunc_ge;

verus! {

/// Bound on each component of the inputs of `add`, `sub` and `neg`.
pub const VLIN_MAX: i64 = 0x2000_0000_0000_0000;

/// Bound on each component of the vector handed to `scale`.
pub const VSCALE_V_MAX: i64 = 0x1000_0000_0000;

/// Bound on the factor handed to `scale`.
pub const VSCALE_S_MAX: i64 = 0x40_0000_0000;

/// Bound on each component of the inputs of `dot` and `cross`.
pub const VDOT_MAX: i64 = 0x100_0000_0000;

/// Bound on each component of the input of `normalize`.
pub const VNORM_MAX: i64 = 0x1_0000_0000_0000;

#[derive(Clone, Copy, Debug, PartialEq, Eq, Structural)]
pub struct Vector3 {
    pub x: i64,
    pub y: i64,
    pub z: i64,
}

impl View for Vector3 {
    type V = (int, int, int);

    open spec fn view(&self) -> (int, int, int) {
        (self.x as int, self.y as int, self.z as int)
    }
}

/// A spec-level triple packed into an executable vector; every component
/// must already lie in the i64 range.
pub open spec fn v3(a: (int, int, int)) -> Vector3 {
    Vector3 { x: a.0 as i64, y: a.1 as i64, z: a.2 as i64 }
}

/// Every component lies in `[-b, b]`.
pub open spec fn s_within(a: (int, int, int), b: int) -> bool {
    &&& -b <= a.0 <= b
    &&& -b <= a.1 <= b
    &&& -b <= a.2 <= b
}

pub open spec fn s_is_zero(a: (int, int, int)) -> bool {
    a == (0int, 0int, 0int)
}

pub open spec fn s_add(a: (int, int, int), b: (int, int, int)) -> (int, int, int) {
    (a.0 + b.0, a.1 + b.1, a.2 + b.2)
}

pub open spec fn s_sub(a: (int, int, int), b: (int, int, int)) -> (int, int, int) {
    (a.0 - b.0, a.1 - b.1, a.2 - b.2)
}

pub open spec fn s_neg(a: (int, int, int)) -> (int, int, int) {
    (-a.0, -a.1, -a.2)
}

/// Scaling by a fixed-point factor, each component truncated.
pub open spec fn s_scale(a: (int, int, int), s: int) -> (int, int, int) {
    (
        div_trunc(a.0 * s, SCALE as int),
        div_trunc(a.1 * s, SCALE as int),
        div_trunc(a.2 * s, SCALE as int),
    )
}

/// The dot product numerator: exact, still carrying one extra SCALE factor.
pub open spec fn s_dot_wide(a: (int, int, int), b: (int, int, int)) -> int {
    a.0 * b.0 + a.1 * b.1 + a.2 * b.2
}

/// The fixed-point dot product.
pub open spec fn s_dot(a: (int, int, int), b: (int, int, int)) -> int {
    div_trunc(s_dot_wide(a, b), SCALE as int)
}

pub open spec fn s_cross(a: (int, int, int), b: (int, int, int)) -> (int, int, int) {
    (
        div_trunc(a.1 * b.2 - a.2 * b.1, SCALE as int),
        div_trunc(a.2 * b.0 - a.0 * b.2, SCALE as int),
        div_trunc(a.0 * b.1 - a.1 * b.0, SCALE as int),
    )
}

/// The fixed-point length: square root of the wide self dot product.
pub open spec fn s_length(a: (int, int, int)) -> int {
    sqrt_of(s_dot_wide(a, a))
}

/// Normalization: each component rescaled by SCALE over the length.
pub open spec fn s_normalize(a: (int, int, int)) -> (int, int, int) {
    (
        div_trunc(a.0 * SCALE, s_length(a)),
        div_trunc(a.1 * SCALE, s_length(a)),
        div_trunc(a.2 * SCALE, s_length(a)),
    )
}

impl Vector3 {
    pub fn new(x: i64, y: i64, z: i64) -> (r: Vector3)
        ensures
            r@ == (x as int, y as int, z as int),
    {
        Vector3 { x, y, z }
    }

    pub fn zero() -> (r: Vector3)
        ensures
            r@ == (0int, 0int, 0int),
    {
        Vector3 { x: 0, y: 0, z: 0 }
    }

    pub fn add(&self, o: &Vector3) -> (r: Vector3)
        requires
            s_within(self@, VLIN_MAX as int),
            s_within(o@, VLIN_MAX as int),
        ensures
            r@ == s_add(self@, o@),
    {
        Vector3 { x: self.x + o.x, y: self.y + o.y, z: self.z + o.z }
    }

    pub fn sub(&self, o: &Vector3) -> (r: Vector3)
        requires
            s_within(self@, VLIN_MAX as int),
            s_within(o@, VLIN_MAX as int),
        ensures
            r@ == s_sub(self@, o@),
    {
        Vector3 { x: self.x - o.x, y: self.y - o.y, z: self.z - o.z }
    }

    pub fn neg(&self) -> (r: Vector3)
        requires
            s_within(self@, VLIN_MAX as int),
        ensures
            r@ == s_neg(self@),
    {
        Vector3 { x: -self.x, y: -self.y, z: -self.z }
    }

    pub fn scale(&self, s: i64) -> (r: Vector3)
        requires
            s_within(self@, VSCALE_V_MAX as int),
            -VSCALE_S_MAX <= s <= VSCALE_S_MAX,
        ensures
            r@ == s_scale(self@, s as int),
    {
        let r = Vector3 {
            x: scale_comp(self.x, s),
            y: scale_comp(self.y, s),
            z: scale_comp(self.z, s),
        };
        r
    }

    /// The exact product sum, one SCALE factor heavy.
    pub fn dot_wide(&self, o: &Vector3) -> (r: i128)
        requires
            s_within(self@, VLIN_MAX as int),
            s_within(o@, VLIN_MAX as int),
        ensures
            r == s_dot_wide(self@, o@),
    {
        proof {
            lemma_mul_abs_bound(self.x as int, o.x as int, VLIN_MAX as int, VLIN_MAX as int);
            lemma_mul_abs_bound(self.y as int, o.y as int, VLIN_MAX as int, VLIN_MAX as int);
            lemma_mul_abs_bound(self.z as int, o.z as int, VLIN_MAX as int, VLIN_MAX as int);
        }
        (self.x as i128) * (o.x as i128) + (self.y as i128) * (o.y as i128) + (self.z as i128)
            * (o.z as i128)
    }

    pub fn dot(&self, o: &Vector3) -> (r: i64)
        requires
            s_within(self@, VDOT_MAX as int),
            s_within(o@, VDOT_MAX as int),
        ensures
            r == s_dot(self@, o@),
    {
        let w = self.dot_wide(o);
        proof {
            lemma_mul_abs_bound(self.x as int, o.x as int, VDOT_MAX as int, VDOT_MAX as int);
            lemma_mul_abs_bound(self.y as int, o.y as int, VDOT_MAX as int, VDOT_MAX as int);
            lemma_mul_abs_bound(self.z as int, o.z as int, VDOT_MAX as int, VDOT_MAX as int);
            lemma_div_trunc_le(w as int, SCALE as int, 0x7000_0000_0000_0000);
            lemma_div_trunc_ge(w as int, SCALE as int, -0x7000_0000_0000_0000);
        }
        let q = div_trunc_i128(w, SCALE as i128);
        q as i64
    }

    pub fn cross(&self, o: &Vector3) -> (r: Vector3)
        requires
            s_within(self@, VDOT_MAX as int),
            s_within(o@, VDOT_MAX as int),
        ensures
            r@ == s_cross(self@, o@),
    {
        let r = Vector3 {
            x: cross_comp(self.y, o.z, self.z, o.y),
            y: cross_comp(self.z, o.x, self.x, o.z),
            z: cross_comp(self.x, o.y, self.y, o.x),
        };
        r
    }

    pub fn normalize(&self) -> (r: Vector3)
        requires
            s_within(self@, VNORM_MAX as int),
            !s_is_zero(self@),
        ensures
            r@ == s_normalize(self@),
            s_within(r@, SCALE as int),
            !s_is_zero(r@),
    {
        let xw = self.x as i128;
        let yw = self.y as i128;
        let zw = self.z as i128;
        proof {
            lemma_mul_abs_bound(xw as int, xw as int, VNORM_MAX as int, VNORM_MAX as int);
            lemma_mul_abs_bound(yw as int, yw as int, VNORM_MAX as int, VNORM_MAX as int);
            lemma_mul_abs_bound(zw as int, zw as int, VNORM_MAX as int, VNORM_MAX as int);
            lemma_square_nonneg(xw as int);
            lemma_square_nonneg(yw as int);
            lemma_square_nonneg(zw as int);
            lemma_nonzero_square(xw as int, yw as int, zw as int);
        }
        let n2: i128 = xw * xw + yw * yw + zw * zw;
        let len: u64 = isqrt(n2 as u128);
        proof {
            lemma_sqrt_of(n2 as int, len as int);
            assert(len >= 1) by {
                if len == 0 {
                    assert((len + 1) * (len + 1) == 1) by (nonlinear_arith)
                        requires
                            len == 0,
                    ;
                }
            }
        }
        let r = Vector3 {
            x: norm_comp(self.x, len, Ghost(self@)),
            y: norm_comp(self.y, len, Ghost(self@)),
            z: norm_comp(self.z, len, Ghost(self@)),
        };
        proof {
            lemma_norm_nonzero(self@, len as int);
        }
        r
    }
}

/// One component of `scale`.
fn scale_comp(a: i64, s: i64) -> (r: i64)
    requires
        -VSCALE_V_MAX <= a <= VSCALE_V_MAX,
        -VSCALE_S_MAX <= s <= VSCALE_S_MAX,
    ensures
        r == div_trunc(a * s, SCALE as int),
{
    proof {
        lemma_mul_abs_bound(a as int, s as int, VSCALE_V_MAX as int, VSCALE_S_MAX as int);
        lemma_div_trunc_le((a as int) * (s as int), SCALE as int, 0x7000_0000_0000_0000);
        lemma_div_trunc_ge((a as int) * (s as int), SCALE as int, -0x7000_0000_0000_0000);
    }
    let p: i128 = (a as i128) * (s as i128);
    let q = div_trunc_i128(p, SCALE as i128);
    q as i64
}

/// One component of `cross`.
fn cross_comp(a: i64, b: i64, c: i64, d: i64) -> (r: i64)
    requires
        -VDOT_MAX <= a <= VDOT_MAX,
        -VDOT_MAX <= b <= VDOT_MAX,
        -VDOT_MAX <= c <= VDOT_MAX,
        -VDOT_MAX <= d <= VDOT_MAX,
    ensures
        r == div_trunc(a * b - c * d, SCALE as int),
{
    proof {
        lemma_mul_abs_bound(a as int, b as int, VDOT_MAX as int, VDOT_MAX as int);
        lemma_mul_abs_bound(c as int, d as int, VDOT_MAX as int, VDOT_MAX as int);
        lemma_div_trunc_le((a as int) * (b as int) - (c as int) * (d as int), SCALE as int, 0x7000_0000_0000_0000);
        lemma_div_trunc_ge((a as int) * (b as int) - (c as int) * (d as int), SCALE as int, -0x7000_0000_0000_0000);
    }
    let p: i128 = (a as i128) * (b as i128) - (c as i128) * (d as i128);
    let q = div_trunc_i128(p, SCALE as i128);
    q as i64
}

/// One component of `normalize`, dividing by the already computed length.
fn norm_comp(a: i64, len: u64, v: Ghost<(int, int, int)>) -> (r: i64)
    requires
        -VNORM_MAX <= a <= VNORM_MAX,
        1 <= len,
        is_sqrt(s_dot_wide(v@, v@), len as int),
        a == v@.0 || a == v@.1 || a == v@.2,
    ensures
        r == div_trunc(a * SCALE, len as int),
        -SCALE <= r <= SCALE,
{
    proof {
        lemma_sqrt_of(s_dot_wide(v@, v@), len as int);
        lemma_comp_le_len(v@, a as int, len as int);
        assert((a as int) * (SCALE as int) <= (len as int) * (SCALE as int)
            && -((len as int) * (SCALE as int)) <= (a as int) * (SCALE as int))
            by (nonlinear_arith)
            requires
                -(len as int) <= a as int <= len as int,
                0 < SCALE as int,
        ;
        lemma_div_trunc_le((a as int) * (SCALE as int), len as int, SCALE as int);
        lemma_div_trunc_ge((a as int) * (SCALE as int), len as int, -(SCALE as int));
    }
    let p: i128 = (a as i128) * (SCALE as i128);
    let q = div_trunc_i128(p, len as i128);
    q as i64
}

/// Scaling a bounded vector by a bounded factor stays bounded.
pub proof fn lemma_scale_within(a: (int, int, int), s: int, ba: int, bs: int)
    requires
        s_within(a, ba),
        -bs <= s <= bs,
        0 <= ba,
        0 <= bs,
    ensures
        s_within(s_scale(a, s), (ba * bs) / (SCALE as int) + 1),
{
    lemma_mul_abs_bound(a.0, s, ba, bs);
    lemma_mul_abs_bound(a.1, s, ba, bs);
    lemma_mul_abs_bound(a.2, s, ba, bs);
    let m = ba * bs;
    let c = m / (SCALE as int) + 1;
    vstd::arithmetic::div_mod::lemma_fundamental_div_mod(m, SCALE as int);
    vstd::arithmetic::div_mod::lemma_mod_bound(m, SCALE as int);
    vstd::arithmetic::div_mod::lemma_div_pos_is_pos(m, SCALE as int);
    assert(m <= c * (SCALE as int)) by (nonlinear_arith)
        requires
            m == (SCALE as int) * (m / (SCALE as int)) + m % (SCALE as int),
            0 <= m % (SCALE as int) < SCALE as int,
            c == m / (SCALE as int) + 1,
    ;
    crate::fixed::lemma_div_trunc_le(a.0 * s, SCALE as int, c);
    crate::fixed::lemma_div_trunc_ge(a.0 * s, SCALE as int, -c);
    crate::fixed::lemma_div_trunc_le(a.1 * s, SCALE as int, c);
    crate::fixed::lemma_div_trunc_ge(a.1 * s, SCALE as int, -c);
    crate::fixed::lemma_div_trunc_le(a.2 * s, SCALE as int, c);
    crate::fixed::lemma_div_trunc_ge(a.2 * s, SCALE as int, -c);
}

/// The cross product of bounded vectors stays bounded.
pub proof fn lemma_cross_within(a: (int, int, int), b: (int, int, int), ba: int, bb: int)
    requires
        s_within(a, ba),
        s_within(b, bb),
        0 <= ba,
        0 <= bb,
    ensures
        s_within(s_cross(a, b), (2 * ba * bb) / (SCALE as int) + 1),
{
    let m = 2 * ba * bb;
    let c = m / (SCALE as int) + 1;
    assert(-m <= a.1 * b.2 - a.2 * b.1 <= m && -m <= a.2 * b.0 - a.0 * b.2 <= m && -m <= a.0
        * b.1 - a.1 * b.0 <= m) by (nonlinear_arith)
        requires
            s_within(a, ba),
            s_within(b, bb),
            0 <= ba,
            0 <= bb,
            m == 2 * ba * bb,
    ;
    vstd::arithmetic::div_mod::lemma_fundamental_div_mod(m, SCALE as int);
    vstd::arithmetic::div_mod::lemma_mod_bound(m, SCALE as int);
    vstd::arithmetic::div_mod::lemma_div_pos_is_pos(m, SCALE as int);
    assert(m <= c * (SCALE as int)) by (nonlinear_arith)
        requires
            m == (SCALE as int) * (m / (SCALE as int)) + m % (SCALE as int),
            0 <= m % (SCALE as int) < SCALE as int,
            c == m / (SCALE as int) + 1,
    ;
    crate::fixed::lemma_div_trunc_le(a.1 * b.2 - a.2 * b.1, SCALE as int, c);
    crate::fixed::lemma_div_trunc_ge(a.1 * b.2 - a.2 * b.1, SCALE as int, -c);
    crate::fixed::lemma_div_trunc_le(a.2 * b.0 - a.0 * b.2, SCALE as int, c);
    crate::fixed::lemma_div_trunc_ge(a.2 * b.0 - a.0 * b.2, SCALE as int, -c);
    crate::fixed::lemma_div_trunc_le(a.0 * b.1 - a.1 * b.0, SCALE as int, c);
    crate::fixed::lemma_div_trunc_ge(a.0 * b.1 - a.1 * b.0, SCALE as int, -c);
}

/// A normalized vector is unit bounded: no component exceeds one whole
/// unit in magnitude.
pub proof fn lemma_normalize_within(a: (int, int, int))
    requires
        s_within(a, VNORM_MAX as int),
        !s_is_zero(a),
    ensures
        s_within(s_normalize(a), SCALE as int),
{
    let n2 = s_dot_wide(a, a);
    assert(1 <= n2) by (nonlinear_arith)
        requires
            n2 == a.0 * a.0 + a.1 * a.1 + a.2 * a.2,
            !(a.0 == 0 && a.1 == 0 && a.2 == 0),
    ;
    crate::fixed::lemma_sqrt_exists(n2);
    let len = s_length(a);
    assert(1 <= len && a.0 <= len && -len <= a.0 && a.1 <= len && -len <= a.1 && a.2 <= len
        && -len <= a.2) by (nonlinear_arith)
        requires
            is_sqrt(n2, len),
            n2 == a.0 * a.0 + a.1 * a.1 + a.2 * a.2,
            1 <= n2,
    ;
    assert(a.0 * SCALE <= len * (SCALE as int) && -(len * (SCALE as int)) <= a.0 * SCALE
        && a.1 * SCALE <= len * (SCALE as int) && -(len * (SCALE as int)) <= a.1 * SCALE
        && a.2 * SCALE <= len * (SCALE as int) && -(len * (SCALE as int)) <= a.2 * SCALE)
        by (nonlinear_arith)
        requires
            -len <= a.0 <= len,
            -len <= a.1 <= len,
            -len <= a.2 <= len,
            0 < SCALE,
    ;
    lemma_div_trunc_le(a.0 * SCALE, len, SCALE as int);
    lemma_div_trunc_ge(a.0 * SCALE, len, -(SCALE as int));
    lemma_div_trunc_le(a.1 * SCALE, len, SCALE as int);
    lemma_div_trunc_ge(a.1 * SCALE, len, -(SCALE as int));
    lemma_div_trunc_le(a.2 * SCALE, len, SCALE as int);
    lemma_div_trunc_ge(a.2 * SCALE, len, -(SCALE as int));
}

/// Scaling by one whole unit changes nothing.
pub proof fn lemma_scale_identity(a: (int, int, int))
    ensures
        s_scale(a, SCALE as int) == a,
{
    assert(a.0 * SCALE == a.0 * (SCALE as int) && a.0 * (SCALE as int) == (SCALE as int) * a.0)
        by (nonlinear_arith);
    assert(a.1 * (SCALE as int) == (SCALE as int) * a.1) by (nonlinear_arith);
    assert(a.2 * (SCALE as int) == (SCALE as int) * a.2) by (nonlinear_arith);
    crate::fixed::lemma_div_trunc_exact(a.0, SCALE as int);
    crate::fixed::lemma_div_trunc_exact(a.1, SCALE as int);
    crate::fixed::lemma_div_trunc_exact(a.2, SCALE as int);
}

proof fn lemma_mul_abs_bound(a: int, b: int, ba: int, bb: int)
    by (nonlinear_arith)
    requires
        -ba <= a <= ba,
        -bb <= b <= bb,
        0 <= ba,
        0 <= bb,
    ensures
        -(ba * bb) <= a * b <= ba * bb,
{
}

proof fn lemma_square_nonneg(a: int)
    by (nonlinear_arith)
    ensures
        a * a >= 0,
{
}

proof fn lemma_nonzero_square(x: int, y: int, z: int)
    by (nonlinear_arith)
    requires
        !(x == 0 && y == 0 && z == 0),
    ensures
        x * x + y * y + z * z >= 1,
{
}

/// Each component is bounded by the vector's length.
proof fn lemma_comp_le_len(v: (int, int, int), a: int, len: int)
    by (nonlinear_arith)
    requires
        a == v.0 || a == v.1 || a == v.2,
        is_sqrt(s_dot_wide(v, v), len),
    ensures
        -len <= a <= len,
{
}

/// A normalized vector keeps a component of at least half a unit on the
/// axis where the input was largest, so it is never the zero vector.
proof fn lemma_norm_nonzero(v: (int, int, int), len: int)
    requires
        !s_is_zero(v),
        is_sqrt(s_dot_wide(v, v), len),
        1 <= len,
    ensures
        !s_is_zero(s_normalize(v)),
{
    lemma_sqrt_of(s_dot_wide(v, v), len);
    let m = if v.0 >= 0 { v.0 } else { -v.0 };
    let n = if v.1 >= 0 { v.1 } else { -v.1 };
    let p = if v.2 >= 0 { v.2 } else { -v.2 };
    if m >= n && m >= p {
        assert(len <= 2 * m) by (nonlinear_arith)
            requires
                is_sqrt(s_dot_wide(v, v), len),
                m == if v.0 >= 0 { v.0 } else { -v.0 },
                n == if v.1 >= 0 { v.1 } else { -v.1 },
                p == if v.2 >= 0 { v.2 } else { -v.2 },
                m >= n && m >= p,
        ;
        assert(m >= 1);
        lemma_norm_comp_far(v.0, m, len);
        assert(div_trunc(v.0 * SCALE, len) != 0);
    } else if n >= m && n >= p {
        assert(len <= 2 * n) by (nonlinear_arith)
            requires
                is_sqrt(s_dot_wide(v, v), len),
                m == if v.0 >= 0 { v.0 } else { -v.0 },
                n == if v.1 >= 0 { v.1 } else { -v.1 },
                p == if v.2 >= 0 { v.2 } else { -v.2 },
                n >= m && n >= p,
        ;
        assert(n >= 1);
        lemma_norm_comp_far(v.1, n, len);
        assert(div_trunc(v.1 * SCALE, len) != 0);
    } else {
        assert(len <= 2 * p) by (nonlinear_arith)
            requires
                is_sqrt(s_dot_wide(v, v), len),
                m == if v.0 >= 0 { v.0 } else { -v.0 },
                n == if v.1 >= 0 { v.1 } else { -v.1 },
                p == if v.2 >= 0 { v.2 } else { -v.2 },
                p >= m && p >= n,
        ;
        assert(p >= 1);
        lemma_norm_comp_far(v.2, p, len);
        assert(div_trunc(v.2 * SCALE, len) != 0);
    }
}

/// On the largest axis the normalized component is at least half a unit
/// in magnitude.
proof fn lemma_norm_comp_far(a: int, aabs: int, len: int)
    requires
        aabs == if a >= 0 { a } else { -a },
        1 <= aabs,
        1 <= len,
        len <= 2 * aabs,
    ensures
        div_trunc(a * SCALE, len) >= 500000 || div_trunc(a * SCALE, len) <= -500000,
{
    assert(500000 * len <= aabs * SCALE) by (nonlinear_arith)
        requires
            len <= 2 * aabs,
            1 <= aabs,
    ;
    if a >= 0 {
        lemma_div_trunc_ge(a * SCALE, len, 500000);
    } else {
        assert(a * SCALE == -(aabs * SCALE)) by (nonlinear_arith)
            requires
                aabs == -a,
        ;
        lemma_div_trunc_le(a * SCALE, len, -500000);
    }
}

} // verus!
