//! The camera: a view basis, a virtual image plane and a lens for defocus blur.
use vstd::prelude::*;
use rand::rngs::StdRng;
use crate::fixed::{bounded, fadd, fdiv, fmul, fx_add, fx_div, fx_mul, SCALE};
use crate::random::{in_unit_ball, randomInUnitDisk};
use crate::ray::Ray;
use crate::vector::{mk, v_add, v_cross, v_normalize, v_scale, v_sub, Vec3};

verus! {

/// `tan(22.5°)`: the tangent of half the default 45° vertical field of view.
pub const HALF_FOV_TAN: i64 = 27146;

/// One half.
pub const HALF: i64 = 32768;

/// The world's reference direction for building the view basis.
pub const WORLD_UP_Z: i64 = 6554;

/// The largest image side, in pixels, that the fixed-point aspect ratio admits.
pub const MAX_SIDE: i32 = 16384;

#[derive(Clone, Copy, Debug, PartialEq, Eq, Structural)]
pub struct Camera {
    pub eye_position: Vec3,
    pub view_direction: Vec3,
    pub up_vector: Vec3,
    pub side_vector: Vec3,
    pub lens_radius: i64,
    pub horizontal: Vec3,
    pub vertical: Vec3,
    pub lower_left_corner: Vec3,
}

/// The camera at `position` looking toward `look_at`, for an image of
/// `width` by `height` pixels, whose vertical field of view has half-angle
/// tangent `half_fov_tan`.
pub open spec fn camera_from(
    position: Vec3,
    look_at: Vec3,
    width: int,
    height: int,
    aperture: int,
    focus_dist: int,
    half_fov_tan: int,
) -> Camera {
    let aspect = fx_div(width * SCALE, height * SCALE);
    let vw_height = fx_add(half_fov_tan, half_fov_tan);
    let vw_width = fx_mul(aspect, vw_height);
    let view = v_normalize(v_sub(position, look_at));
    let side = v_normalize(v_cross(mk(0, 0, WORLD_UP_Z as int), view));
    let up = v_cross(view, side);
    let horizontal = v_scale(v_scale(side, vw_width), focus_dist);
    let vertical = v_scale(v_scale(up, vw_height), focus_dist);
    Camera {
        eye_position: position,
        view_direction: view,
        up_vector: up,
        side_vector: side,
        lens_radius: fx_mul(aperture, HALF as int) as i64,
        horizontal,
        vertical,
        lower_left_corner: v_sub(
            v_sub(v_sub(position, v_scale(horizontal, HALF as int)), v_scale(vertical, HALF as int)),
            v_scale(view, focus_dist),
        ),
    }
}

/// The ray from the lens point `rd` (a point of the unit disk, scaled by the
/// lens radius) toward the viewport position `(u, v)`.
pub open spec fn ray_through(cam: Camera, u: int, v: int, rd: Vec3) -> Ray {
    let lens = v_scale(rd, cam.lens_radius as int);
    let offset = v_add(v_scale(cam.up_vector, lens.x as int), v_scale(cam.side_vector, lens.y as int));
    let target = v_add(
        v_add(cam.lower_left_corner, v_scale(cam.horizontal, u)),
        v_scale(cam.vertical, v),
    );
    Ray {
        origin: v_add(cam.eye_position, offset),
        direction: v_sub(v_sub(target, cam.eye_position), offset),
    }
}

impl Camera {
    pub open spec fn default_spec() -> Camera {
        camera_from(mk(0, 0, 0), mk(SCALE as int, 0, 0), 800, 600, 39322, SCALE as int, HALF_FOV_TAN as int)
    }

    pub open spec fn wf(&self) -> bool {
        &&& self.eye_position.wf()
        &&& self.view_direction.wf()
        &&& self.up_vector.wf()
        &&& self.side_vector.wf()
        &&& bounded(self.lens_radius as int)
        &&& self.horizontal.wf()
        &&& self.vertical.wf()
        &&& self.lower_left_corner.wf()
    }

    pub fn new(
        position: Vec3,
        look_at: Vec3,
        width: i32,
        height: i32,
        aperture: i64,
        focus_dist: i64,
        half_fov_tan: i64,
    ) -> (r: Camera)
        requires
            position.wf(),
            look_at.wf(),
            0 < width <= MAX_SIDE,
            0 < height <= MAX_SIDE,
            bounded(aperture as int),
            bounded(focus_dist as int),
            bounded(half_fov_tan as int),
        ensures
            r == camera_from(position, look_at, width as int, height as int, aperture as int, focus_dist as int, half_fov_tan as int),
            r.wf(),
    {
        let aspect: i64 = fdiv(width as i64 * SCALE, height as i64 * SCALE);
        let vw_height: i64 = fadd(half_fov_tan, half_fov_tan);
        let vw_width: i64 = fmul(aspect, vw_height);
        let view: Vec3 = position.sub(&look_at).normalize();
        let world_up: Vec3 = Vec3 { x: 0, y: 0, z: WORLD_UP_Z };
        let side: Vec3 = world_up.cross(&view).normalize();
        let up: Vec3 = view.cross(&side);
        let horizontal: Vec3 = side.scale(vw_width).scale(focus_dist);
        let vertical: Vec3 = up.scale(vw_height).scale(focus_dist);
        let lower_left_corner: Vec3 = position.sub(&horizontal.scale(HALF)).sub(&vertical.scale(HALF)).sub(
            &view.scale(focus_dist),
        );
        Camera {
            eye_position: position,
            view_direction: view,
            up_vector: up,
            side_vector: side,
            lens_radius: fmul(aperture, HALF),
            horizontal,
            vertical,
            lower_left_corner,
        }
    }

    /// The camera at the origin looking along the x axis, for an 800 by 600
    /// image, with aperture 0.6, focus distance 1 and a 45° field of view.
    pub fn default_camera() -> (r: Camera)
        ensures
            r == Camera::default_spec(),
            r.wf(),
    {
        Camera::new(Vec3 { x: 0, y: 0, z: 0 }, Vec3 { x: SCALE, y: 0, z: 0 }, 800, 600, 39322, SCALE, HALF_FOV_TAN)
    }

    /// The ray for viewport position `(u, v)` that leaves the lens at `rd`.
    pub fn ray_through(&self, u: i64, v: i64, rd: &Vec3) -> (r: Ray)
        requires
            self.wf(),
            bounded(u as int),
            bounded(v as int),
            rd.wf(),
        ensures
            r == ray_through(*self, u as int, v as int, *rd),
            r.wf(),
    {
        let lens: Vec3 = rd.scale(self.lens_radius);
        let offset: Vec3 = self.up_vector.scale(lens.x).add(&self.side_vector.scale(lens.y));
        let target: Vec3 = self.lower_left_corner.add(&self.horizontal.scale(u)).add(
            &self.vertical.scale(v),
        );
        Ray {
            origin: self.eye_position.add(&offset),
            direction: target.sub(&self.eye_position).sub(&offset),
        }
    }

    /// A ray toward viewport position `(u, v)` from a random point of the lens.
    #[allow(non_snake_case)]
    pub fn createARay(&self, u: i64, v: i64, rng: &mut StdRng) -> (r: Ray)
        requires
            self.wf(),
            bounded(u as int),
            bounded(v as int),
        ensures
            exists|rd: Vec3| in_unit_ball(rd) && rd.z == 0 && rd.wf() && r == ray_through(*self, u as int, v as int, rd),
            r.wf(),
    {
        let rd: Vec3 = randomInUnitDisk(rng);
        self.ray_through(u, v, &rd)
    }
}

} // verus!
