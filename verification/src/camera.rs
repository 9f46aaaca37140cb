//! The camera: pixel coordinates to world-space rays, and the render loop.
//!
//! A camera maps the canvas onto a unit-distance view plane.  The caller
//! supplies the tangent of half the field of view (the fixed-point core
//! keeps no trigonometry); the constructor derives the half extents and
//! the pixel size from it and the aspect ratio.

use crate::canvas::Canvas;
use crate::matrices::{identity_m, inverse_m, is_invertible_m, mul_tuple_m, Matrix4};
use crate::rays::Ray;
use crate::scalar::{add_v, div_v, mul_v, Scalar, SCALE};
use crate::tuples::{normalize_total_t, sub_t, tup, Tuple};
use crate::world::{color_at_spec, world_wf, World};
use crate::REFLECTION_RECURSION_LIMIT;
use vstd::prelude::*;

verus! {

/// A camera over an `hsize` by `vsize` canvas; `half_view` is the tangent
/// of half its field of view.
pub struct Camera {
    pub hsize: u32,
    pub vsize: u32,
    pub half_view: Scalar,
    pub pixel_size: Scalar,
    pub half_width: Scalar,
    pub half_height: Scalar,
    pub transform: Matrix4,
}

/// The derived extents: the wider axis spans `half_view`, the other is
/// shrunk by the aspect ratio, and a pixel is the width over `hsize`.
pub open spec fn camera_spec(hsize: u32, vsize: u32, half_view: Scalar) -> Camera {
    let hs = hsize as int * (SCALE as int);
    let vs = vsize as int * (SCALE as int);
    let aspect = div_v(hs, vs);
    let half_width = if aspect >= SCALE {
        half_view.v as int
    } else {
        mul_v(half_view.v as int, aspect)
    };
    let half_height = if aspect >= SCALE {
        div_v(half_view.v as int, aspect)
    } else {
        half_view.v as int
    };
    Camera {
        hsize,
        vsize,
        half_view,
        pixel_size: Scalar { v: div_v(mul_v(half_width, 2 * SCALE), hs) as i64 },
        half_width: Scalar { v: half_width as i64 },
        half_height: Scalar { v: half_height as i64 },
        transform: identity_m(),
    }
}

/// The ray through the center of pixel `(px, py)`: the pixel's point on
/// the view plane at `z == -1` and the camera origin, both carried into
/// world space, with the normalized direction between them.
pub open spec fn ray_for_pixel_spec(c: Camera, px: u32, py: u32) -> Ray {
    let x_offset = mul_v(add_v(px as int * (SCALE as int), SCALE as int / 2), c.pixel_size.v as int);
    let y_offset = mul_v(add_v(py as int * (SCALE as int), SCALE as int / 2), c.pixel_size.v as int);
    let world_x = crate::scalar::sub_v(c.half_width.v as int, x_offset);
    let world_y = crate::scalar::sub_v(c.half_height.v as int, y_offset);
    let inv = inverse_m(c.transform);
    let pixel = mul_tuple_m(inv, tup(world_x, world_y, -(SCALE as int), SCALE as int));
    let origin = mul_tuple_m(inv, tup(0, 0, 0, SCALE as int));
    Ray { origin, direction: normalize_total_t(sub_t(pixel, origin)) }
}

impl Camera {
    /// A camera over an `hsize` by `vsize` canvas whose field of view has
    /// the given half-view tangent, looking down the identity transform.
    pub fn new(hsize: u32, vsize: u32, half_view: Scalar) -> (r: Camera)
        requires
            hsize >= 1,
            vsize >= 1,
        ensures
            r == camera_spec(hsize, vsize, half_view),
    {
        let hs = Scalar::from_int(hsize as i64);
        let vs = Scalar::from_int(vsize as i64);
        let aspect = hs.over(vs);
        let half_width: Scalar;
        let half_height: Scalar;
        if aspect.v >= SCALE {
            half_width = half_view;
            half_height = half_view.over(aspect);
        } else {
            half_width = half_view.times(aspect);
            half_height = half_view;
        }
        let pixel_size = half_width.times(Scalar { v: 2 * SCALE }).over(hs);
        Camera {
            hsize,
            vsize,
            half_view,
            pixel_size,
            half_width,
            half_height,
            transform: Matrix4::identity(),
        }
    }

    /// The world-space ray through the center of pixel `(px, py)`.
    pub fn ray_for_pixel(&self, px: u32, py: u32) -> (r: Ray)
        requires
            is_invertible_m(self.transform),
        ensures
            r == ray_for_pixel_spec(*self, px, py),
    {
        let half = Scalar { v: SCALE / 2 };
        let x_offset = Scalar::from_int(px as i64).plus(half).times(self.pixel_size);
        let y_offset = Scalar::from_int(py as i64).plus(half).times(self.pixel_size);
        let world_x = self.half_width.minus(x_offset);
        let world_y = self.half_height.minus(y_offset);
        let inv = self.transform.inverse();
        let pixel = inv.mul_tuple(Tuple::point(world_x, world_y, Scalar { v: -SCALE }));
        let origin = inv.mul_tuple(
            Tuple::point(Scalar { v: 0 }, Scalar { v: 0 }, Scalar { v: 0 }),
        );
        let direction = pixel.minus(origin).normalize();
        Ray::new(origin, direction)
    }

    /// Render the world: one ray per pixel, each traced with the full
    /// reflection bounce budget, written into a canvas of this camera's
    /// size.
    pub fn render(&self, world: World) -> (r: Canvas)
        requires
            is_invertible_m(self.transform),
            world_wf(world),
            world.light_source is Some,
            self.hsize as int * self.vsize as int <= usize::MAX,
        ensures
            r.width == self.hsize,
            r.height == self.vsize,
            r.pixels@.len() == self.hsize as int * self.vsize as int,
            forall|x: u32, y: u32|
                x < self.hsize && y < self.vsize ==> #[trigger] r.pixels@[y as int * self.hsize
                    as int + x as int] == color_at_spec(
                    world,
                    ray_for_pixel_spec(*self, x, y),
                    REFLECTION_RECURSION_LIMIT as int,
                ),
    {
        let mut canvas = Canvas::new(self.hsize, self.vsize);
        let ghost w = self.hsize as int;
        let ghost h = self.vsize as int;
        let mut y: u32 = 0;
        while y < self.vsize
            invariant
                y <= self.vsize,
                canvas.width == self.hsize,
                canvas.height == self.vsize,
                canvas.pixels@.len() == w * h,
                w == self.hsize as int,
                h == self.vsize as int,
                is_invertible_m(self.transform),
                world_wf(world),
                world.light_source is Some,
                forall|xx: u32, yy: u32|
                    xx < self.hsize && yy < y ==> #[trigger] canvas.pixels@[yy as int * w
                        + xx as int] == color_at_spec(
                        world,
                        ray_for_pixel_spec(*self, xx, yy),
                        REFLECTION_RECURSION_LIMIT as int,
                    ),
            decreases h - y,
        {
            let mut x: u32 = 0;
            while x < self.hsize
                invariant
                    x <= self.hsize,
                    y < self.vsize,
                    canvas.width == self.hsize,
                    canvas.height == self.vsize,
                    canvas.pixels@.len() == w * h,
                    w == self.hsize as int,
                    h == self.vsize as int,
                    is_invertible_m(self.transform),
                    world_wf(world),
                    world.light_source is Some,
                    forall|xx: u32, yy: u32|
                        xx < self.hsize && yy < y ==> #[trigger] canvas.pixels@[yy as int * w
                            + xx as int] == color_at_spec(
                            world,
                            ray_for_pixel_spec(*self, xx, yy),
                            REFLECTION_RECURSION_LIMIT as int,
                        ),
                    forall|xx: u32|
                        xx < x ==> #[trigger] canvas.pixels@[y as int * w + xx as int]
                            == color_at_spec(
                            world,
                            ray_for_pixel_spec(*self, xx, y),
                            REFLECTION_RECURSION_LIMIT as int,
                        ),
                decreases w - x,
            {
                let ray = self.ray_for_pixel(x, y);
                let color = world.color_at(&ray, REFLECTION_RECURSION_LIMIT);
                proof {
                    lemma_row_major_in_bounds(w, h, x as int, y as int);
                }
                canvas.write_pixel(x, y, &color);
                proof {
                    assert forall|xx: u32, yy: u32| xx < self.hsize && yy < y implies #[trigger] canvas.pixels@[yy as int
                        * w + xx as int] == color_at_spec(
                        world,
                        ray_for_pixel_spec(*self, xx, yy),
                        REFLECTION_RECURSION_LIMIT as int,
                    ) by {
                        lemma_row_major_in_bounds(w, h, xx as int, yy as int);
                        lemma_row_major_distinct(w, xx as int, yy as int, x as int, y as int);
                    }
                    assert forall|xx: u32| xx < x + 1 implies #[trigger] canvas.pixels@[y as int * w
                        + xx as int] == color_at_spec(
                        world,
                        ray_for_pixel_spec(*self, xx, y),
                        REFLECTION_RECURSION_LIMIT as int,
                    ) by {
                        lemma_row_major_in_bounds(w, h, xx as int, y as int);
                        if xx < x {
                            lemma_row_major_distinct(w, xx as int, y as int, x as int, y as int);
                        }
                    }
                }
                x = x + 1;
            }
            y = y + 1;
        }
        canvas
    }
}

/// A row-major index of an in-bounds coordinate pair is in bounds.
proof fn lemma_row_major_in_bounds(w: int, h: int, x: int, y: int)
    requires
        0 <= x < w,
        0 <= y < h,
    ensures
        0 <= y * w + x < w * h,
{
    assert(y * w + x < w * h) by (nonlinear_arith)
        requires
            0 <= x < w,
            0 <= y < h,
    ;
    assert(y * w >= 0) by (nonlinear_arith)
        requires
            y >= 0,
            w > 0,
    ;
}

/// Distinct in-bounds coordinate pairs have distinct row-major indices.
proof fn lemma_row_major_distinct(w: int, x1: int, y1: int, x2: int, y2: int)
    requires
        0 <= x1 < w,
        0 <= x2 < w,
        0 <= y1,
        0 <= y2,
        !(x1 == x2 && y1 == y2),
    ensures
        y1 * w + x1 != y2 * w + x2,
{
    assert(y1 * w + x1 != y2 * w + x2) by (nonlinear_arith)
        requires
            0 <= x1 < w,
            0 <= x2 < w,
            0 <= y1,
            0 <= y2,
            !(x1 == x2 && y1 == y2),
    ;
}

} // verus!
