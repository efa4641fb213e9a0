//! The pinhole camera: an immutable value derived once from its pose and
//! viewport parameters, turning normalized screen coordinates into rays.

use vstd::prelude::*;
use crate::fixed::SCALE;
use crate::fixed::ORIGIN_MAX;
use crate::fixed::div_trunc;
use crate::fixed::mul_fixed;
use crate::fixed::lemma_div_trunc_le;
use crate::fixed::lemma_div_trunc_ge;
use crate::vec3::Vector3;
use crate::vec3::s_within;
use crate::vec3::s_is_zero;
use crate::vec3::s_normalize;
use crate::vec3::s_add;
use crate::vec3::s_sub;
use crate::vec3::s_scale;
use crate::vec3::s_cross;
use crate::vec3::lemma_scale_within;
use crate::vec3::lemma_cross_within;
use crate::vec3::lemma_scale_identity;
use crate::ray::Ray;
use crate::ray::ray_wf;

verus! {

/// Bound on the camera pose inputs.
pub const CAM_POS_MAX: i64 = 0x10_0000_0000;

/// Bound on the derived viewport vectors.
pub const CAM_DERIVED_MAX: i64 = 0x80_0000_0000;

/// Largest half-field-of-view tangent accepted, sixteen units.
pub const HALF_TAN_MAX: i64 = 16_000_000;

/// Largest aspect ratio accepted.
pub const ASPECT_MAX: i64 = 0x1_0000_0000;

/// The viewing direction.
pub open spec fn s_cam_forward(pos: (int, int, int), target: (int, int, int)) -> (int, int, int) {
    s_normalize(s_sub(target, pos))
}

/// The screen-right direction.
pub open spec fn s_cam_right(
    pos: (int, int, int),
    target: (int, int, int),
    up: (int, int, int),
) -> (int, int, int) {
    s_normalize(s_cross(s_cam_forward(pos, target), up))
}

/// The screen-up direction.
pub open spec fn s_cam_up(
    pos: (int, int, int),
    target: (int, int, int),
    up: (int, int, int),
) -> (int, int, int) {
    s_cross(s_cam_right(pos, target, up), s_cam_forward(pos, target))
}

#[derive(Clone, Copy, Debug)]
pub struct Camera {
    pub position: Vector3,
    pub target: Vector3,
    pub up: Vector3,
    pub half_fov_tan: i64,
    pub aspect_ratio: i64,
    pub near: i64,
    pub far: i64,
    pub forward: Vector3,
    pub right: Vector3,
    pub camera_up: Vector3,
    pub viewport_height: i64,
    pub viewport_width: i64,
    pub horizontal: Vector3,
    pub vertical: Vector3,
    pub lower_left_corner: Vector3,
}

/// The bounds `get_ray` needs of an already constructed camera.
pub open spec fn cam_wf(c: Camera) -> bool {
    &&& s_within(c.position@, CAM_POS_MAX as int)
    &&& s_within(c.horizontal@, CAM_DERIVED_MAX as int)
    &&& s_within(c.vertical@, CAM_DERIVED_MAX as int)
    &&& s_within(c.lower_left_corner@, CAM_DERIVED_MAX as int)
}

/// The unnormalized direction of the ray through screen point `(u, v)`.
pub open spec fn s_ray_dir(c: Camera, u: int, v: int) -> (int, int, int) {
    s_sub(
        s_add(s_add(c.lower_left_corner@, s_scale(c.horizontal@, u)), s_scale(c.vertical@, v)),
        c.position@,
    )
}

/// The ray `get_ray` returns, as a spec value.
pub open spec fn s_get_ray(c: Camera, u: int, v: int) -> Ray {
    let d = s_ray_dir(c, u, v);
    Ray {
        origin: c.position,
        direction: if s_is_zero(d) {
            crate::vec3::v3(d)
        } else {
            crate::vec3::v3(s_normalize(d))
        },
    }
}

impl Camera {
    /// Derive the orthonormal basis and the viewport rectangle one unit
    /// ahead. Degenerate poses (target at the position, or an up hint
    /// parallel to the view direction) are the caller's responsibility.
    pub fn new(
        position: Vector3,
        target: Vector3,
        up: Vector3,
        half_fov_tan: i64,
        aspect_ratio: i64,
    ) -> (r: Camera)
        requires
            s_within(position@, CAM_POS_MAX as int),
            s_within(target@, CAM_POS_MAX as int),
            s_within(up@, CAM_POS_MAX as int),
            !s_is_zero(s_sub(target@, position@)),
            !s_is_zero(s_cross(s_cam_forward(position@, target@), up@)),
            0 < half_fov_tan <= HALF_TAN_MAX,
            0 < aspect_ratio <= ASPECT_MAX,
        ensures
            r.position == position && r.target == target && r.up == up,
            r.half_fov_tan == half_fov_tan && r.aspect_ratio == aspect_ratio,
            r.forward@ == s_cam_forward(position@, target@),
            r.right@ == s_cam_right(position@, target@, up@),
            r.camera_up@ == s_cam_up(position@, target@, up@),
            r.viewport_height == 2 * half_fov_tan,
            r.viewport_width == div_trunc(aspect_ratio * (2 * half_fov_tan), SCALE as int),
            r.horizontal@ == s_scale(r.right@, r.viewport_width as int),
            r.vertical@ == s_scale(r.camera_up@, r.viewport_height as int),
            r.lower_left_corner@ == s_sub(
                s_sub(s_add(position@, r.forward@), s_scale(r.horizontal@, 500_000)),
                s_scale(r.vertical@, 500_000),
            ),
            cam_wf(r),
    {
        let forward = target.sub(&position).normalize();
        let right_raw = forward.cross(&up);
        proof {
            lemma_cross_within(forward@, up@, SCALE as int, CAM_POS_MAX as int);
        }
        let right = right_raw.normalize();
        let camera_up = right.cross(&forward);
        proof {
            lemma_cross_within(right@, forward@, SCALE as int, SCALE as int);
        }
        let viewport_height: i64 = 2 * half_fov_tan;
        proof {
            assert(aspect_ratio * viewport_height <= 0x40_0000_0000 * (SCALE as int)
                && 0 <= aspect_ratio * viewport_height) by (nonlinear_arith)
                requires
                    0 < aspect_ratio <= ASPECT_MAX,
                    0 < viewport_height <= 2 * HALF_TAN_MAX,
            ;
            lemma_div_trunc_le(aspect_ratio * viewport_height, SCALE as int, 0x40_0000_0000);
            lemma_div_trunc_ge(aspect_ratio * viewport_height, SCALE as int, 0);
        }
        let viewport_width = mul_fixed(aspect_ratio, viewport_height);
        proof {
            lemma_scale_within(right@, viewport_width as int, SCALE as int, 0x40_0000_0000);
        }
        let horizontal = right.scale(viewport_width);
        proof {
            lemma_scale_within(
                camera_up@,
                viewport_height as int,
                2 * (SCALE as int) + 1,
                2 * (HALF_TAN_MAX as int),
            );
        }
        let vertical = camera_up.scale(viewport_height);
        let forward_step = forward.scale(SCALE);
        proof {
            lemma_scale_identity(forward@);
            lemma_scale_within(horizontal@, 500_000, 0x41_0000_0000, 500_000);
            lemma_scale_within(vertical@, 500_000, 0x4000_0000, 500_000);
        }
        let half_h = horizontal.scale(500_000);
        let half_v = vertical.scale(500_000);
        let lower_left_corner = position.add(&forward_step).sub(&half_h).sub(&half_v);
        Camera {
            position,
            target,
            up,
            half_fov_tan,
            aspect_ratio,
            near: 100_000,
            far: 100_000_000,
            forward,
            right,
            camera_up,
            viewport_height,
            viewport_width,
            horizontal,
            vertical,
            lower_left_corner,
        }
    }

    /// The ray through normalized screen coordinates, left to right in
    /// `u` and bottom to top in `v`. A degenerate pose may aim a screen
    /// point exactly at the camera; such a ray keeps the zero direction
    /// and hits nothing its origin is not inside of.
    pub fn get_ray(&self, u: i64, v: i64) -> (r: Ray)
        requires
            cam_wf(*self),
            0 <= u <= SCALE,
            0 <= v <= SCALE,
        ensures
            r.origin == self.position,
            s_is_zero(s_ray_dir(*self, u as int, v as int)) ==> r.direction@ == (0int, 0int, 0int),
            !s_is_zero(s_ray_dir(*self, u as int, v as int)) ==> r.direction@ == s_normalize(
                s_ray_dir(*self, u as int, v as int),
            ),
            r == s_get_ray(*self, u as int, v as int),
            ray_wf(r),
    {
        proof {
            lemma_scale_within(self.horizontal@, u as int, CAM_DERIVED_MAX as int, SCALE as int);
            lemma_scale_within(self.vertical@, v as int, CAM_DERIVED_MAX as int, SCALE as int);
        }
        let hu = self.horizontal.scale(u);
        let vv = self.vertical.scale(v);
        let dir = self.lower_left_corner.add(&hu).add(&vv).sub(&self.position);
        if dir.x == 0 && dir.y == 0 && dir.z == 0 {
            Ray { origin: self.position, direction: dir }
        } else {
            Ray::new(self.position, dir)
        }
    }
}

} // verus!
