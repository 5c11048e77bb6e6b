//! The camera: image resolution, viewport and per-pixel sampling geometry.

use vstd::prelude::*;
use crate::fixed::{Fx, SCALE, clip, fx_half, fx_one};
use crate::vector::Vec3;

verus! {

/// A camera fixed at the origin looking down the negative third axis, with a
/// 16:9 image, a viewport two world units tall and a focal length of one.
#[derive(Clone, Copy, Debug)]
pub struct Camera {
    pub image_width: i32,
    pub image_height: i32,
    pub pixel00_loc: Vec3,
    pub center: Vec3,
    pub pixel_vec_u: Vec3,
    pub pixel_vec_v: Vec3,
    pub max_depth: u32,
}

/// The image height a width maps to: the width over the 16:9 aspect ratio,
/// floored, and at least one.
pub open spec fn image_height_v(image_width: int) -> int {
    let h = (image_width * 9) / 16;
    if h < 2 {
        1
    } else {
        h
    }
}

/// What `Camera::new` returns.
pub open spec fn camera_v(image_width: i32, max_depth: u32) -> Camera
    recommends
        image_width >= 1,
{
    let ih = image_height_v(image_width as int);
    let one = fx_one();
    let two = Fx { raw: (2 * SCALE) as i64 };
    let zero = Fx { raw: 0 };
    let viewport_width = Fx { raw: clip((2 * (ih / (image_width as int))) * SCALE) as i64 };
    let center = Vec3 { x: zero, y: zero, z: zero };
    let vector_u = Vec3 { x: viewport_width, y: zero, z: zero };
    let vector_v = Vec3 { x: zero, y: two.neg_v(), z: zero };
    let width_fx = Fx { raw: clip((image_width as int) * SCALE) as i64 };
    let height_fx = Fx { raw: clip(ih * SCALE) as i64 };
    let pixel_vec_u = vector_u.div_scalar_v(width_fx);
    let pixel_vec_v = vector_v.div_scalar_v(height_fx);
    let viewport_upper_left = center.sub_v(Vec3 { x: zero, y: zero, z: one }).sub_v(
        vector_u.div_scalar_v(two),
    ).sub_v(vector_v.div_scalar_v(two));
    let pixel00_loc = pixel_vec_u.add_v(pixel_vec_v).mul_scalar_v(fx_half()).add_v(
        viewport_upper_left,
    );
    Camera {
        image_width,
        image_height: ih as i32,
        pixel00_loc,
        center,
        pixel_vec_u,
        pixel_vec_v,
        max_depth,
    }
}

impl Camera {
    /// The camera is exactly what `Camera::new` builds for its width and depth.
    pub open spec fn wf(self) -> bool {
        self.image_width >= 1 && self == camera_v(self.image_width, self.max_depth)
    }

    /// Derive the full sampling geometry from the requested image width.
    pub fn new(image_width: i32, max_depth: u32) -> (c: Camera)
        requires
            image_width >= 1,
        ensures
            c == camera_v(image_width, max_depth),
            c.wf(),
            c.image_height >= 1,
    {
        // Image height from the fixed 16:9 aspect ratio, at least 1.
        let h64: u64 = (image_width as u64) * 9 / 16;
        let image_height: i32 = if h64 < 2 {
            1
        } else {
            h64 as i32
        };
        proof {
            assert((image_width as int) * 9 == (image_width as u64) * 9);
            assert(image_height as int == image_height_v(image_width as int));
        }

        // Camera geometry: focal length 1, viewport height 2, width scaled by
        // the truncated integer ratio of height to width.
        let one = Fx::one();
        let two = Fx::from_int(2);
        let q: u64 = (image_height as u64) / (image_width as u64);
        let viewport_width = Fx::from_int(2 * (q as i64));
        let center = Vec3::new(Fx::zero(), Fx::zero(), Fx::zero());

        // Viewport edge vectors.
        let vector_u = Vec3::new(viewport_width, Fx::zero(), Fx::zero());
        let vector_v = Vec3::new(Fx::zero(), two.neg(), Fx::zero());

        // Per-pixel delta vectors.
        let width_fx = Fx::from_int(image_width as i64);
        let height_fx = Fx::from_int(image_height as i64);
        proof {
            lemma_from_int_nonzero(image_width as int);
            lemma_from_int_nonzero(image_height as int);
        }
        let pixel_vec_u = vector_u.div_scalar(width_fx);
        let pixel_vec_v = vector_v.div_scalar(height_fx);

        // World-space center of the top-left pixel.
        let viewport_upper_left = center.sub(Vec3::new(Fx::zero(), Fx::zero(), one)).sub(
            vector_u.div_scalar(two),
        ).sub(vector_v.div_scalar(two));
        let mut pixel00_loc = pixel_vec_u.add(pixel_vec_v).mul_scalar(Fx::half());
        pixel00_loc = pixel00_loc.add(viewport_upper_left);

        Camera {
            image_width,
            image_height,
            pixel00_loc,
            pixel_vec_u,
            pixel_vec_v,
            center,
            max_depth,
        }
    }
}

/// A positive integer maps to a non-zero scalar.
proof fn lemma_from_int_nonzero(i: int)
    requires
        i >= 1,
    ensures
        clip(i * SCALE) >= 1,
{
    assert(i * SCALE >= 1 * SCALE) by (nonlinear_arith)
        requires
            i >= 1,
            SCALE > 0,
    ;
}

/// A well-formed camera's geometry keeps every sample ray off the viewport
/// plane: the third components of the deltas are zero and the pixel grid sits
/// one focal length in front of the center.
pub proof fn lemma_camera_geometry(camera: Camera)
    requires
        camera.wf(),
    ensures
        camera.pixel_vec_u.z@ == 0,
        camera.pixel_vec_v.z@ == 0,
        camera.pixel00_loc.z@ == -(SCALE as int),
        camera.center.x@ == 0 && camera.center.y@ == 0 && camera.center.z@ == 0,
        camera.image_height >= 1,
{
    let w = camera.image_width;
    let ih = image_height_v(w as int);
    lemma_from_int_nonzero(w as int);
    lemma_from_int_nonzero(ih);
    let width_raw = clip((w as int) * SCALE);
    let height_raw = clip(ih * SCALE);
    vstd::arithmetic::div_mod::lemma_div_of0(crate::fixed::mag(width_raw));
    vstd::arithmetic::div_mod::lemma_div_of0(crate::fixed::mag(height_raw));
    assert(crate::fixed::tdiv(0, width_raw) == 0);
    assert(crate::fixed::tdiv(0, height_raw) == 0);
    assert(crate::fixed::tdiv(0, (2 * SCALE) as int) == 0);
    let cv = camera_v(camera.image_width, camera.max_depth);
    let zero = Fx { raw: 0 };
    let one = fx_one();
    let two = Fx { raw: (2 * SCALE) as i64 };
    let width_fx = Fx { raw: width_raw as i64 };
    let height_fx = Fx { raw: height_raw as i64 };
    assert(cv.pixel_vec_u.z == zero.div_v(width_fx));
    assert(zero.div_v(width_fx)@ == 0);
    assert(cv.pixel_vec_v.z == zero.div_v(height_fx));
    assert(zero.div_v(height_fx)@ == 0);
    assert(zero.div_v(two)@ == 0);
    let ul_z = zero.sub_v(one).sub_v(zero.div_v(two)).sub_v(zero.div_v(two));
    assert(cv.pixel00_loc.z == cv.pixel_vec_u.z.add_v(cv.pixel_vec_v.z).mul_v(fx_half()).add_v(
        ul_z,
    ));
    assert(ul_z@ == -(SCALE as int));
    assert(cv.pixel_vec_u.z.add_v(cv.pixel_vec_v.z)@ == 0);
    assert(crate::fixed::tdiv(0 * fx_half()@, SCALE as int) == 0);
    assert(cv.pixel00_loc.z@ == -(SCALE as int));
}

} // verus!
