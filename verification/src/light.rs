//! Lights and their shading contributions: a directional light with
//! Lambertian diffuse shading and an ambient light.

use vstd::prelude::*;
use crate::fixed::SCALE;
use crate::fixed::div_trunc;
use crate::fixed::mul_fixed;
use crate::fixed::lemma_div_trunc_ge;
use crate::vec3::Vector3;
use crate::vec3::VNORM_MAX;
use crate::vec3::s_within;
use crate::vec3::s_is_zero;
use crate::vec3::s_normalize;
use crate::vec3::s_neg;
use crate::vec3::s_dot;
use crate::ray::color_wf;

verus! {

/// Largest intensity accepted, a thousand units.
pub const INTENSITY_MAX: i64 = 1_000_000_000;

#[derive(Clone, Copy, Debug)]
pub struct DirectionalLight {
    pub direction: Vector3,
    pub color: Vector3,
    pub intensity: i64,
}

/// Stored direction is unit-bounded, nonzero, and points toward the light.
pub open spec fn dl_wf(l: DirectionalLight) -> bool {
    &&& s_within(l.direction@, SCALE as int)
    &&& !s_is_zero(l.direction@)
    &&& color_wf(l.color@)
    &&& 0 <= l.intensity <= INTENSITY_MAX
}

/// The diffuse term: cosine of normal against the light direction,
/// floored at zero, times intensity, modulating each channel.
pub open spec fn s_diffuse(l: DirectionalLight, normal: (int, int, int), color: (int, int, int))
    -> (int, int, int) {
    let cos_theta = if s_dot(normal, l.direction@) >= 0 {
        s_dot(normal, l.direction@)
    } else {
        0
    };
    let strength = div_trunc(cos_theta * l.intensity, SCALE as int);
    (
        div_trunc(div_trunc(color.0 * l.color@.0, SCALE as int) * strength, SCALE as int),
        div_trunc(div_trunc(color.1 * l.color@.1, SCALE as int) * strength, SCALE as int),
        div_trunc(div_trunc(color.2 * l.color@.2, SCALE as int) * strength, SCALE as int),
    )
}

impl DirectionalLight {
    /// Built from the direction the light travels; the stored direction
    /// is the normalized opposite, pointing back toward the source.
    pub fn new(direction: Vector3, color: Vector3, intensity: i64) -> (r: DirectionalLight)
        requires
            s_within(direction@, VNORM_MAX as int),
            !s_is_zero(direction@),
            color_wf(color@),
            0 <= intensity <= INTENSITY_MAX,
        ensures
            r.direction@ == s_normalize(s_neg(direction@)),
            r.color == color,
            r.intensity == intensity,
            dl_wf(r),
    {
        DirectionalLight { direction: direction.neg().normalize(), color, intensity }
    }

    /// Lambertian diffuse shading; zero wherever the surface faces away.
    pub fn calculate_diffuse(&self, surface_normal: Vector3, surface_color: Vector3) -> (r:
        Vector3)
        requires
            dl_wf(*self),
            s_within(surface_normal@, SCALE as int),
            color_wf(surface_color@),
        ensures
            r@ == s_diffuse(*self, surface_normal@, surface_color@),
            r.x >= 0 && r.y >= 0 && r.z >= 0,
            r.x <= self.intensity * 4 && r.y <= self.intensity * 4 && r.z <= self.intensity * 4,
    {
        let cos_raw = surface_normal.dot(&self.direction);
        let cos_theta: i64 = if cos_raw >= 0 {
            cos_raw
        } else {
            0
        };
        proof {
            lemma_dot_small(surface_normal@, self.direction@);
        }
        let strength = mul_fixed(cos_theta, self.intensity);
        proof {
            assert(cos_theta * self.intensity <= (self.intensity * 4) * SCALE
                && cos_theta * self.intensity >= 0) by (nonlinear_arith)
                requires
                    0 <= cos_theta <= 4 * (SCALE as int),
                    0 <= self.intensity,
            ;
            crate::fixed::lemma_div_trunc_le(
                cos_theta * self.intensity,
                SCALE as int,
                self.intensity * 4,
            );
            lemma_div_trunc_ge(cos_theta * self.intensity, SCALE as int, 0);
        }
        Vector3 {
            x: diffuse_channel(surface_color.x, self.color.x, strength, Ghost(self.intensity as int)),
            y: diffuse_channel(surface_color.y, self.color.y, strength, Ghost(self.intensity as int)),
            z: diffuse_channel(surface_color.z, self.color.z, strength, Ghost(self.intensity as int)),
        }
    }
}

/// One channel of the diffuse term.
fn diffuse_channel(s: i64, c: i64, strength: i64, ibound: Ghost<int>) -> (r: i64)
    requires
        0 <= s <= SCALE,
        0 <= c <= SCALE,
        0 <= strength,
        strength <= ibound@ * 4,
        ibound@ <= INTENSITY_MAX as int,
    ensures
        r == div_trunc(div_trunc(s * c, SCALE as int) * strength, SCALE as int),
        0 <= r <= ibound@ * 4,
{
    proof {
        assert(0 <= s * c <= SCALE as int * SCALE as int) by (nonlinear_arith)
            requires
                0 <= s <= SCALE,
                0 <= c <= SCALE,
        ;
        crate::fixed::lemma_div_trunc_le(s * c, SCALE as int, SCALE as int);
        lemma_div_trunc_ge(s * c, SCALE as int, 0);
    }
    let sc = mul_fixed(s, c);
    proof {
        assert(sc * strength <= (ibound@ * 4) * SCALE && sc * strength >= 0)
            by (nonlinear_arith)
            requires
                0 <= sc <= SCALE,
                0 <= strength <= ibound@ * 4,
        ;
        crate::fixed::lemma_div_trunc_le(sc * strength, SCALE as int, ibound@ * 4);
        lemma_div_trunc_ge(sc * strength, SCALE as int, 0);
    }
    mul_fixed(sc, strength)
}

/// The cosine term of two unit-bounded vectors stays within four units.
proof fn lemma_dot_small(a: (int, int, int), b: (int, int, int))
    requires
        s_within(a, SCALE as int),
        s_within(b, SCALE as int),
    ensures
        -4 * (SCALE as int) <= s_dot(a, b) <= 4 * (SCALE as int),
{
    assert(-3 * (SCALE as int) * (SCALE as int) <= crate::vec3::s_dot_wide(a, b)
        <= 3 * (SCALE as int) * (SCALE as int)) by (nonlinear_arith)
        requires
            s_within(a, SCALE as int),
            s_within(b, SCALE as int),
    ;
    crate::fixed::lemma_div_trunc_le(
        crate::vec3::s_dot_wide(a, b),
        SCALE as int,
        4 * (SCALE as int),
    );
    crate::fixed::lemma_div_trunc_ge(
        crate::vec3::s_dot_wide(a, b),
        SCALE as int,
        -4 * (SCALE as int),
    );
}

#[derive(Clone, Copy, Debug)]
pub struct AmbientLight {
    pub color: Vector3,
    pub intensity: i64,
}

pub open spec fn al_wf(l: AmbientLight) -> bool {
    &&& color_wf(l.color@)
    &&& 0 <= l.intensity <= INTENSITY_MAX
}

/// The ambient term: surface times light color times intensity.
pub open spec fn s_ambient(l: AmbientLight, color: (int, int, int)) -> (int, int, int) {
    (
        div_trunc(div_trunc(color.0 * l.color@.0, SCALE as int) * l.intensity, SCALE as int),
        div_trunc(div_trunc(color.1 * l.color@.1, SCALE as int) * l.intensity, SCALE as int),
        div_trunc(div_trunc(color.2 * l.color@.2, SCALE as int) * l.intensity, SCALE as int),
    )
}

impl AmbientLight {
    pub fn new(color: Vector3, intensity: i64) -> (r: AmbientLight)
        requires
            color_wf(color@),
            0 <= intensity <= INTENSITY_MAX,
        ensures
            r.color == color,
            r.intensity == intensity,
            al_wf(r),
    {
        AmbientLight { color, intensity }
    }

    /// Directionless shading, always contributed in full.
    pub fn calculate_ambient(&self, surface_color: Vector3) -> (r: Vector3)
        requires
            al_wf(*self),
            color_wf(surface_color@),
        ensures
            r@ == s_ambient(*self, surface_color@),
            r.x >= 0 && r.y >= 0 && r.z >= 0,
            r.x <= self.intensity && r.y <= self.intensity && r.z <= self.intensity,
    {
        Vector3 {
            x: ambient_channel(surface_color.x, self.color.x, self.intensity),
            y: ambient_channel(surface_color.y, self.color.y, self.intensity),
            z: ambient_channel(surface_color.z, self.color.z, self.intensity),
        }
    }
}

/// One channel of the ambient term.
fn ambient_channel(s: i64, c: i64, intensity: i64) -> (r: i64)
    requires
        0 <= s <= SCALE,
        0 <= c <= SCALE,
        0 <= intensity <= INTENSITY_MAX,
    ensures
        r == div_trunc(div_trunc(s * c, SCALE as int) * intensity, SCALE as int),
        0 <= r <= intensity,
{
    proof {
        assert(0 <= s * c <= SCALE as int * SCALE as int) by (nonlinear_arith)
            requires
                0 <= s <= SCALE,
                0 <= c <= SCALE,
        ;
        crate::fixed::lemma_div_trunc_le(s * c, SCALE as int, SCALE as int);
        lemma_div_trunc_ge(s * c, SCALE as int, 0);
    }
    let sc = mul_fixed(s, c);
    proof {
        assert(sc * intensity <= intensity * SCALE && sc * intensity >= 0) by (nonlinear_arith)
            requires
                0 <= sc <= SCALE,
                0 <= intensity,
        ;
        crate::fixed::lemma_div_trunc_le(sc * intensity, SCALE as int, intensity as int);
        lemma_div_trunc_ge(sc * intensity, SCALE as int, 0);
    }
    mul_fixed(sc, intensity)
}

} // verus!
