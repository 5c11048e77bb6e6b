//! The render loop: jittered samples per pixel, averaged, quantized, and
//! emitted as one text line per pixel behind a three-line header.

use vstd::prelude::*;
use crate::camera::{Camera, lemma_camera_geometry};
use crate::color::Color;
use crate::fixed::{Fx, RAW_LIMIT, SCALE, clip, fx_half, tdiv};
use crate::hit_record::world_wf;
use crate::interval::Interval;
use crate::ray::Ray;
use crate::sphere::Sphere;
use crate::text::{dec_seq, rgb_line, rgb_line_of};
use crate::vector::{Vec3, lemma_sq_term_nonneg};

verus! {

/// The renderer.
#[derive(Debug)]
pub struct Render {}

/// What `quantize` returns: the whole part of the channel scaled by 255.999.
pub open spec fn quantize_v(v: Fx) -> int {
    tdiv(v.mul_v(Fx { raw: tdiv(255999 * (SCALE as int), 1000) as i64 })@, SCALE as int)
}

/// A clamped channel value scaled into a display integer; positive channels
/// give small non-negative integers.
fn quantize(v: Fx) -> (q: u64)
    requires
        v@ > 0,
    ensures
        q as int == quantize_v(v),
{
    let factor = Fx::ratio(255999, 1000);
    proof {
        crate::fixed::lemma_tdiv_eval(255999 * (SCALE as int), 1000, 16777150, 464);
        assert(factor@ == 16777150);
    }
    let scaled = v.mul(factor);
    let q = scaled.trunc();
    proof {
        assert(v@ * factor@ >= 0) by (nonlinear_arith)
            requires
                v@ >= 0,
                factor@ >= 0,
        ;
        crate::fixed::lemma_tdiv_nonneg(v@ * factor@, SCALE as int);
        assert(scaled@ >= 0);
        crate::fixed::lemma_tdiv_nonneg(scaled@, SCALE as int);
    }
    q as u64
}

/// The display range accumulated samples are clamped into: a small positive
/// floor, so underflow never prints exact black, and an effectively unbounded
/// top.
pub open spec fn display_range() -> Interval {
    Interval { min: Fx { raw: 65 }, max: Fx { raw: RAW_LIMIT } }
}

/// The camera ray for pixel column `x`, row `y`, under the jitter draw `u`.
pub open spec fn sample_ray_v(camera: Camera, x: int, y: int, u: Fx) -> Ray {
    let pixel_center = camera.pixel00_loc.add_v(
        camera.pixel_vec_u.mul_scalar_v(Fx { raw: clip(x * SCALE) as i64 }),
    ).add_v(camera.pixel_vec_v.mul_scalar_v(Fx { raw: clip(y * SCALE) as i64 }));
    let pixel_sample = pixel_center.add_v(
        Render::pixel_sample_square_v(u, camera.pixel_vec_u, camera.pixel_vec_v),
    );
    Ray { origin: camera.center, direction: pixel_sample.sub_v(camera.center) }
}

/// The channel sums pixel (x, y) may accumulate over its first `n` samples:
/// zero sums to black, and each further sample adds a color that the jittered
/// camera ray may gather under some draw.
pub open spec fn pixel_sum_rel(
    camera: Camera,
    world: Seq<Sphere>,
    n: int,
    x: int,
    y: int,
    c: Color,
) -> bool
    decreases n,
{
    if n <= 0 {
        c == Color::black_v()
    } else {
        exists|c0: Color, u: Fx, col: Color|
            #![auto]
            pixel_sum_rel(camera, world, n - 1, x, y, c0) && 0 <= u@ < SCALE
                && crate::ray::ray_color_rel(
                sample_ray_v(camera, x, y, u),
                display_range(),
                world,
                camera.max_depth,
                col,
            ) && c == c0.add_v(col)
    }
}

/// Line `3 + y*width + x` of the output belongs to pixel (x, y): it prints
/// the quantized, clamped average of channel sums that pixel may accumulate.
pub open spec fn pixel_line_ok(
    out: Seq<String>,
    camera: Camera,
    world: Seq<Sphere>,
    spp: i32,
    x: int,
    y: int,
) -> bool {
    exists|c: Color|
        #![auto]
        pixel_sum_rel(camera, world, spp as int, x, y, c) && out[3 + y * (
        camera.image_width as int) + x]@ == rgb_line_of(
            quantize_v(display_range().sample_v(c.red, spp)),
            quantize_v(display_range().sample_v(c.green, spp)),
            quantize_v(display_range().sample_v(c.blue, spp)),
        )
}

/// A pixel keeps its line when a later line is pushed behind it.
proof fn lemma_pixel_line_push(
    prev: Seq<String>,
    line: String,
    camera: Camera,
    world: Seq<Sphere>,
    spp: i32,
    x: int,
    y: int,
)
    requires
        pixel_line_ok(prev, camera, world, spp, x, y),
        0 <= 3 + y * (camera.image_width as int) + x < prev.len(),
    ensures
        pixel_line_ok(prev.push(line), camera, world, spp, x, y),
{
    let i = 3 + y * (camera.image_width as int) + x;
    let c = choose|c: Color|
        #![auto]
        pixel_sum_rel(camera, world, spp as int, x, y, c) && prev[i]@ == rgb_line_of(
            quantize_v(display_range().sample_v(c.red, spp)),
            quantize_v(display_range().sample_v(c.green, spp)),
            quantize_v(display_range().sample_v(c.blue, spp)),
        );
    assert(prev.push(line)[i] == prev[i]);
    assert(pixel_sum_rel(camera, world, spp as int, x, y, c) && prev.push(line)[i]@ == rgb_line_of(
        quantize_v(display_range().sample_v(c.red, spp)),
        quantize_v(display_range().sample_v(c.green, spp)),
        quantize_v(display_range().sample_v(c.blue, spp)),
    ));
}

impl Render {
    /// What `pixel_sample_square` returns.
    pub open spec fn pixel_sample_square_v(draw: Fx, pixel_delta_u: Vec3, pixel_delta_v: Vec3) -> Vec3 {
        let p = fx_half().neg_v().add_v(draw);
        pixel_delta_u.mul_scalar_v(p).add_v(pixel_delta_v.mul_scalar_v(p))
    }

    /// The jitter inside one pixel's footprint for a uniform draw in `[0, 1)`;
    /// the one draw is shared by both axes.
    pub fn pixel_sample_square(draw: Fx, pixel_delta_u: Vec3, pixel_delta_v: Vec3) -> (v: Vec3)
        ensures
            v == Render::pixel_sample_square_v(draw, pixel_delta_u, pixel_delta_v),
    {
        let px = Fx::half().neg().add(draw);
        let py = px;

        pixel_delta_u.mul_scalar(px).add(pixel_delta_v.mul_scalar(py))
    }

    /// Render the scene: a `P3` header line, the image height and width, the
    /// greatest row index, and then one `R G B` line per pixel in row-major
    /// order, each line the quantized average of channel sums its own pixel
    /// may accumulate over the requested samples.
    pub fn render(
        camera: &Camera,
        world: &Vec<Sphere>,
        samples_per_pixel: i32,
        rng: &mut rand::rngs::StdRng,
    ) -> (out: Vec<String>)
        requires
            camera.wf(),
            world_wf(world@),
            samples_per_pixel >= 1,
        ensures
            out@.len() == 3 + (camera.image_height as int) * (camera.image_width as int),
            out@[0]@ == "P3"@,
            out@[1]@ == dec_seq(camera.image_height as int) + seq![' '] + dec_seq(
                camera.image_width as int,
            ),
            out@[2]@ == dec_seq(camera.image_height - 1),
            forall|k: int| 3 <= k < out@.len() ==> rgb_line(#[trigger] out@[k]@),
            forall|yy: int, xx: int|
                0 <= yy < camera.image_height && 0 <= xx < camera.image_width
                    ==> #[trigger] pixel_line_ok(out@, *camera, world@, samples_per_pixel, xx, yy),
    {
        let h = camera.image_height;
        let w = camera.image_width;
        proof {
            lemma_camera_geometry(*camera);
        }

        let min = Fx::ratio(1, 1000);
        proof {
            crate::fixed::lemma_tdiv_eval(SCALE as int, 1000, 65, 536);
            assert(min@ == 65);
        }
        let intensity = Interval::new(min, Fx { raw: RAW_LIMIT });
        proof {
            assert(intensity == display_range());
        }

        let mut out: Vec<String> = Vec::new();
        out.push(String::from_str("P3"));
        let mut line2 = crate::text::fmt_u64(h as u64);
        line2.append(" ");
        let ws = crate::text::fmt_u64(w as u64);
        line2.append(ws.as_str());
        out.push(line2);
        out.push(crate::text::fmt_u64((h - 1) as u64));
        proof {
            reveal_strlit(" ");
            assert(" "@ =~= seq![' ']);
            assert(out@[1]@ == dec_seq(h as int) + seq![' '] + dec_seq(w as int));
        }

        let mut y: i32 = 0;
        while y < h
            invariant
                camera.wf(),
                world_wf(world@),
                samples_per_pixel >= 1,
                h == camera.image_height,
                w == camera.image_width,
                1 <= h,
                1 <= w,
                0 <= y <= h,
                intensity == display_range(),
                out@.len() == 3 + (y as int) * (w as int),
                out@[0]@ == "P3"@,
                out@[1]@ == dec_seq(h as int) + seq![' '] + dec_seq(w as int),
                out@[2]@ == dec_seq(h - 1),
                forall|k: int| 3 <= k < out@.len() ==> rgb_line(#[trigger] out@[k]@),
                forall|yy: int, xx: int|
                    0 <= yy < y && 0 <= xx < w ==> #[trigger] pixel_line_ok(
                        out@,
                        *camera,
                        world@,
                        samples_per_pixel,
                        xx,
                        yy,
                    ),
            decreases h - y,
        {
            let mut x: i32 = 0;
            while x < w
                invariant
                    camera.wf(),
                    world_wf(world@),
                    samples_per_pixel >= 1,
                    h == camera.image_height,
                    w == camera.image_width,
                    1 <= h,
                    1 <= w,
                    0 <= y < h,
                    0 <= x <= w,
                    intensity == display_range(),
                    out@.len() == 3 + (y as int) * (w as int) + (x as int),
                    out@[0]@ == "P3"@,
                    out@[1]@ == dec_seq(h as int) + seq![' '] + dec_seq(w as int),
                    out@[2]@ == dec_seq(h - 1),
                    forall|k: int| 3 <= k < out@.len() ==> rgb_line(#[trigger] out@[k]@),
                    forall|yy: int, xx: int|
                        0 <= yy < y && 0 <= xx < w ==> #[trigger] pixel_line_ok(
                            out@,
                            *camera,
                            world@,
                            samples_per_pixel,
                            xx,
                            yy,
                        ),
                    forall|xx: int|
                        0 <= xx < x ==> #[trigger] pixel_line_ok(
                            out@,
                            *camera,
                            world@,
                            samples_per_pixel,
                            xx,
                            y as int,
                        ),
                decreases w - x,
            {
                let mut color = Color::black();

                let mut z: i32 = 0;
                while z < samples_per_pixel
                    invariant
                        camera.wf(),
                        world_wf(world@),
                        samples_per_pixel >= 1,
                        0 <= z <= samples_per_pixel,
                        intensity == display_range(),
                        pixel_sum_rel(*camera, world@, z as int, x as int, y as int, color),
                    decreases samples_per_pixel - z,
                {
                    let pixel_center = camera.pixel00_loc.add(
                        camera.pixel_vec_u.mul_scalar(Fx::from_int(x as i64)),
                    ).add(camera.pixel_vec_v.mul_scalar(Fx::from_int(y as i64)));
                    let draw = Fx { raw: crate::rng::rng_range(rng, 0, SCALE) };
                    let pixel_sample = pixel_center.add(
                        Render::pixel_sample_square(draw, camera.pixel_vec_u, camera.pixel_vec_v),
                    );

                    let ray_direction = pixel_sample.sub(camera.center);
                    proof {
                        lemma_sample_dir_nonzero(
                            *camera,
                            Fx { raw: clip((x as i64) * SCALE) as i64 },
                            Fx { raw: clip((y as i64) * SCALE) as i64 },
                            draw,
                        );
                    }

                    let r = Ray::new(camera.center, ray_direction);
                    proof {
                        assert(r == sample_ray_v(*camera, x as int, y as int, draw));
                    }
                    let sample_color = Ray::ray_color(&r, intensity, world, camera.max_depth, rng);
                    let ghost c0 = color;
                    color = color.add(sample_color);
                    proof {
                        assert(pixel_sum_rel(*camera, world@, z as int, x as int, y as int, c0)
                            && 0 <= draw@ < SCALE && crate::ray::ray_color_rel(
                            sample_ray_v(*camera, x as int, y as int, draw),
                            display_range(),
                            world@,
                            camera.max_depth,
                            sample_color,
                        ) && color == c0.add_v(sample_color));
                        assert(pixel_sum_rel(
                            *camera,
                            world@,
                            z + 1,
                            x as int,
                            y as int,
                            color,
                        ));
                    }
                    z = z + 1;
                }

                let rs = intensity.sample(color.red, samples_per_pixel);
                let gs = intensity.sample(color.green, samples_per_pixel);
                let bs = intensity.sample(color.blue, samples_per_pixel);
                proof {
                    lemma_sample_pos(intensity, color.red, samples_per_pixel);
                    lemma_sample_pos(intensity, color.green, samples_per_pixel);
                    lemma_sample_pos(intensity, color.blue, samples_per_pixel);
                }
                let line = crate::text::pixel_line(quantize(rs), quantize(gs), quantize(bs));
                let ghost prev = out@;
                out.push(line);
                proof {
                    assert(out@ == prev.push(line));
                    assert(out@[3 + (y as int) * (w as int) + (x as int)] == line);
                    assert(pixel_sum_rel(
                        *camera,
                        world@,
                        samples_per_pixel as int,
                        x as int,
                        y as int,
                        color,
                    ) && out@[3 + (y as int) * (w as int) + (x as int)]@ == rgb_line_of(
                        quantize_v(display_range().sample_v(color.red, samples_per_pixel)),
                        quantize_v(display_range().sample_v(color.green, samples_per_pixel)),
                        quantize_v(display_range().sample_v(color.blue, samples_per_pixel)),
                    ));
                    assert(pixel_line_ok(
                        out@,
                        *camera,
                        world@,
                        samples_per_pixel,
                        x as int,
                        y as int,
                    ));
                    assert forall|yy: int, xx: int|
                        0 <= yy < y && 0 <= xx < w implies #[trigger] pixel_line_ok(
                        out@,
                        *camera,
                        world@,
                        samples_per_pixel,
                        xx,
                        yy,
                    ) by {
                        assert(yy * (w as int) + (w as int) <= (y as int) * (w as int))
                            by (nonlinear_arith)
                            requires
                                yy + 1 <= y as int,
                                w >= 1,
                        ;
                        assert(yy * (w as int) >= 0) by (nonlinear_arith)
                            requires
                                yy >= 0,
                                w >= 1,
                        ;
                        lemma_pixel_line_push(
                            prev,
                            line,
                            *camera,
                            world@,
                            samples_per_pixel,
                            xx,
                            yy,
                        );
                    }
                    assert forall|xx: int| 0 <= xx < x implies #[trigger] pixel_line_ok(
                        out@,
                        *camera,
                        world@,
                        samples_per_pixel,
                        xx,
                        y as int,
                    ) by {
                        assert((y as int) * (w as int) >= 0) by (nonlinear_arith)
                            requires
                                y >= 0,
                                w >= 1,
                        ;
                        lemma_pixel_line_push(
                            prev,
                            line,
                            *camera,
                            world@,
                            samples_per_pixel,
                            xx,
                            y as int,
                        );
                    }
                }
                x = x + 1;
            }
            proof {
                assert(((y as int) + 1) * (w as int) == (y as int) * (w as int) + (w as int))
                    by (nonlinear_arith);
                assert forall|yy: int, xx: int|
                    0 <= yy < y + 1 && 0 <= xx < w implies #[trigger] pixel_line_ok(
                    out@,
                    *camera,
                    world@,
                    samples_per_pixel,
                    xx,
                    yy,
                ) by {
                    if yy < y {
                        assert(pixel_line_ok(out@, *camera, world@, samples_per_pixel, xx, yy));
                    } else {
                        assert(pixel_line_ok(
                            out@,
                            *camera,
                            world@,
                            samples_per_pixel,
                            xx,
                            y as int,
                        ));
                    }
                }
            }
            y = y + 1;
        }

        out
    }
}

/// Clamping into a positive range gives a positive scalar.
proof fn lemma_sample_pos(intensity: Interval, color: Fx, pixels_per_sample: i32)
    requires
        intensity.min@ > 0,
        intensity.max@ >= intensity.min@,
        pixels_per_sample >= 1,
    ensures
        intensity.sample_v(color, pixels_per_sample)@ > 0,
{
}

/// Every ray the render loop fires has a non-zero direction: the pixel grid
/// sits one focal length in front of the camera center, and the jitter and
/// pixel deltas stay inside the viewport plane.
proof fn lemma_sample_dir_nonzero(camera: Camera, fx_x: Fx, fx_y: Fx, draw: Fx)
    requires
        camera.wf(),
    ensures
        ({
            let pixel_center = camera.pixel00_loc.add_v(
                camera.pixel_vec_u.mul_scalar_v(fx_x),
            ).add_v(camera.pixel_vec_v.mul_scalar_v(fx_y));
            let pixel_sample = pixel_center.add_v(
                Render::pixel_sample_square_v(draw, camera.pixel_vec_u, camera.pixel_vec_v),
            );
            pixel_sample.sub_v(camera.center).len_sq_v()@ != 0
        }),
{
    lemma_camera_geometry(camera);
    let pixel_center = camera.pixel00_loc.add_v(camera.pixel_vec_u.mul_scalar_v(fx_x)).add_v(
        camera.pixel_vec_v.mul_scalar_v(fx_y),
    );
    let jitter = Render::pixel_sample_square_v(draw, camera.pixel_vec_u, camera.pixel_vec_v);
    let dir = pixel_center.add_v(jitter).sub_v(camera.center);
    assert(camera.pixel_vec_u.mul_scalar_v(fx_x).z@ == 0);
    assert(camera.pixel_vec_v.mul_scalar_v(fx_y).z@ == 0);
    assert(pixel_center.z@ == -(SCALE as int));
    assert(jitter.z@ == 0);
    assert(dir.z@ == -(SCALE as int));
    lemma_sq_term_nonneg(dir.x);
    lemma_sq_term_nonneg(dir.y);
    crate::fixed::lemma_tdiv_eval((SCALE as int) * (SCALE as int), SCALE as int, SCALE as int, 0);
    assert(dir.z.mul_v(dir.z)@ == SCALE as int);
    assert(dir.len_sq_v()@ >= 1);
}

} // verus!
