//! The per-frame pixel loop: compose mapper, evaluator and color policy
//! into a fully populated frame buffer.

use vstd::prelude::*;
use crate::geometry::{ImageDimensions, ViewportBounds, ComplexPoint, map_axis, pixel_to_point};
use crate::evaluator::{
    IterationParams,
    MANDELBROT_RADIUS,
    escape_iterations,
    spec_julia_count,
    spec_mandelbrot_count,
};
use crate::color::{
    ColorSpec,
    continuous_color,
    palette_color,
    spec_continuous_color,
    spec_palette_color,
};

verus! {

/// Which escape-time map a frame is rendered with.
#[derive(Clone, Copy, PartialEq, Eq, Structural, Debug)]
pub enum FractalVariant {
    /// `c` from the pixel, seed `0`, escape radius `2.0`.
    Mandelbrot,
    /// Seed from the pixel, the fixed constant `c`, configurable radius.
    Julia { c: ComplexPoint },
}

impl FractalVariant {
    /// Machine limit on the Julia constant.
    pub open spec fn fits(self) -> bool {
        match self {
            FractalVariant::Mandelbrot => true,
            FractalVariant::Julia { c } => c.fits(),
        }
    }
}

/// How an iteration count becomes a pixel color.
#[derive(Clone, Copy, PartialEq, Eq, Structural, Debug)]
pub enum ColorPolicy {
    /// The fixed bucket palette.
    Discrete,
    /// The raw count on all three channels, saturating at white.
    Grayscale,
    /// Continuous hue rotation with scale factor `hue_numer / hue_denom`.
    Continuous { hue_numer: u32, hue_denom: u32 },
}

impl ColorPolicy {
    /// The hue scale factor has a nonzero denominator.
    pub open spec fn fits(self) -> bool {
        match self {
            ColorPolicy::Continuous { hue_numer, hue_denom } => hue_denom >= 1,
            _ => true,
        }
    }
}

/// Validation failures, detected at entry before any pixel is written.
#[derive(Clone, Copy, PartialEq, Eq, Structural, Debug)]
pub enum RenderError {
    /// Width or height is zero.
    InvalidDimensions,
    /// The viewport is degenerate on some axis.
    InvalidBounds,
    /// Escape radius or iteration cap is not positive.
    InvalidIterationParams,
}

/// A fully populated `width x height` grid of colors, row-major.
#[derive(Clone, Debug)]
pub struct FrameBuffer {
    pub width: u32,
    pub height: u32,
    pub pixels: Vec<ColorSpec>,
}

/// Row-major position of pixel `(x, y)` in a buffer of the given width.
pub open spec fn pixel_index(x: int, y: int, width: int) -> int {
    y * width + x
}

/// Color of the grayscale policy: the count on every channel, saturating.
pub open spec fn spec_gray_color(count: int) -> ColorSpec {
    if count > 255 {
        ColorSpec { red: 255, green: 255, blue: 255 }
    } else {
        ColorSpec { red: count as u8, green: count as u8, blue: count as u8 }
    }
}

/// Iteration count of pixel `(x, y)` under the given render settings.
pub open spec fn spec_pixel_count(
    x: int,
    y: int,
    dims: ImageDimensions,
    bounds: ViewportBounds,
    params: IterationParams,
    variant: FractalVariant,
) -> int {
    let re = map_axis(x, dims.width as int, bounds.x_min as int, bounds.x_max as int);
    let im = map_axis(y, dims.height as int, bounds.y_min as int, bounds.y_max as int);
    match variant {
        FractalVariant::Mandelbrot => spec_mandelbrot_count(re, im, params.max_iterations as int),
        FractalVariant::Julia { c } => spec_julia_count(
            re,
            im,
            c.re as int,
            c.im as int,
            params.escape_radius as int,
            params.max_iterations as int,
        ),
    }
}

/// Color an iteration count under the given policy.
pub open spec fn spec_apply_policy(policy: ColorPolicy, count: int, max: int) -> ColorSpec {
    match policy {
        ColorPolicy::Discrete => spec_palette_color(count, max),
        ColorPolicy::Grayscale => spec_gray_color(count),
        ColorPolicy::Continuous { hue_numer, hue_denom } => spec_continuous_color(
            count,
            hue_numer as int,
            hue_denom as int,
        ),
    }
}

/// Final color of pixel `(x, y)` under the given render settings.
pub open spec fn spec_pixel_color(
    x: int,
    y: int,
    dims: ImageDimensions,
    bounds: ViewportBounds,
    params: IterationParams,
    variant: FractalVariant,
    policy: ColorPolicy,
) -> ColorSpec {
    spec_apply_policy(
        policy,
        spec_pixel_count(x, y, dims, bounds, params, variant),
        params.max_iterations as int,
    )
}

/// A frame buffer holds exactly the pixels of the given render settings:
/// one entry per grid cell, row-major, each the color the pipeline assigns.
pub open spec fn spec_frame_ok(
    fb: FrameBuffer,
    dims: ImageDimensions,
    bounds: ViewportBounds,
    params: IterationParams,
    variant: FractalVariant,
    policy: ColorPolicy,
) -> bool {
    &&& fb.width == dims.width
    &&& fb.height == dims.height
    &&& fb.pixels@.len() == (dims.width as int) * (dims.height as int)
    &&& forall|x: int, y: int|
        0 <= x < dims.width && 0 <= y < dims.height ==> fb.pixels@[pixel_index(
            x,
            y,
            dims.width as int,
        )] == spec_pixel_color(x, y, dims, bounds, params, variant, policy)
}

/// A pixel's row-major position lies inside the buffer.
pub proof fn lemma_pixel_index_in_range(x: int, y: int, width: int, height: int)
    requires
        0 <= x < width,
        0 <= y < height,
    ensures
        0 <= pixel_index(x, y, width) < height * width,
{
    assert(0 <= y * width + x < height * width) by (nonlinear_arith)
        requires
            0 <= x < width,
            0 <= y < height,
    ;
}

/// Color one evaluated count under the given policy.
fn apply_policy(policy: &ColorPolicy, count: u32, max_iterations: u32) -> (c: ColorSpec)
    requires
        policy.fits(),
        max_iterations >= 1,
        count <= max_iterations,
    ensures
        c == spec_apply_policy(*policy, count as int, max_iterations as int),
{
    match policy {
        ColorPolicy::Discrete => palette_color(count, max_iterations),
        ColorPolicy::Grayscale => {
            if count > 255 {
                ColorSpec { red: 255, green: 255, blue: 255 }
            } else {
                let v = count as u8;
                ColorSpec { red: v, green: v, blue: v }
            }
        },
        ColorPolicy::Continuous { hue_numer, hue_denom } => continuous_color(
            count,
            *hue_numer,
            *hue_denom,
        ),
    }
}

/// Evaluate one pixel's iteration count.
fn evaluate_pixel(point: ComplexPoint, params: &IterationParams, variant: &FractalVariant) -> (count:
    u32)
    requires
        point.fits(),
        params.valid(),
        params.fits(),
        variant.fits(),
    ensures
        count == spec_pixel_count_at(point, *params, *variant),
        1 <= count <= params.max_iterations,
{
    match variant {
        FractalVariant::Mandelbrot => escape_iterations(
            point,
            point,
            MANDELBROT_RADIUS,
            1,
            params.max_iterations,
        ),
        FractalVariant::Julia { c } => escape_iterations(
            point,
            *c,
            params.escape_radius,
            1,
            params.max_iterations,
        ),
    }
}

/// Iteration count of an already mapped plane point.
pub open spec fn spec_pixel_count_at(
    point: ComplexPoint,
    params: IterationParams,
    variant: FractalVariant,
) -> int {
    match variant {
        FractalVariant::Mandelbrot => spec_mandelbrot_count(
            point.re as int,
            point.im as int,
            params.max_iterations as int,
        ),
        FractalVariant::Julia { c } => spec_julia_count(
            point.re as int,
            point.im as int,
            c.re as int,
            c.im as int,
            params.escape_radius as int,
            params.max_iterations as int,
        ),
    }
}

/// Render one frame: validate the settings, then visit every pixel exactly
/// once, composing mapper, evaluator and color policy into the buffer.
pub fn render_frame(
    dims: &ImageDimensions,
    bounds: &ViewportBounds,
    params: &IterationParams,
    variant: &FractalVariant,
    policy: &ColorPolicy,
) -> (r: Result<FrameBuffer, RenderError>)
    requires
        dims.fits(),
        bounds.fits(),
        params.fits(),
        variant.fits(),
        policy.fits(),
    ensures
        r is Ok <==> dims.valid() && bounds.valid() && params.valid(),
        match r {
            Ok(fb) => spec_frame_ok(fb, *dims, *bounds, *params, *variant, *policy),
            Err(e) => {
                &&& (e == RenderError::InvalidDimensions <==> !dims.valid())
                &&& (e == RenderError::InvalidBounds <==> dims.valid() && !bounds.valid())
                &&& (e == RenderError::InvalidIterationParams <==> dims.valid() && bounds.valid()
                    && !params.valid())
            },
        },
{
    if dims.width == 0 || dims.height == 0 {
        return Err(RenderError::InvalidDimensions);
    }
    if bounds.x_max <= bounds.x_min || bounds.y_max <= bounds.y_min {
        return Err(RenderError::InvalidBounds);
    }
    if params.escape_radius <= 0 || params.max_iterations == 0 {
        return Err(RenderError::InvalidIterationParams);
    }
    let width = dims.width;
    let height = dims.height;
    let mut pixels: Vec<ColorSpec> = Vec::new();
    let mut y: u32 = 0;
    while y < height
        invariant
            dims.width == width,
            dims.height == height,
            dims.valid(),
            dims.fits(),
            bounds.valid(),
            bounds.fits(),
            params.valid(),
            params.fits(),
            variant.fits(),
            policy.fits(),
            y <= height,
            pixels@.len() == (y as int) * (width as int),
            forall|xx: int, yy: int|
                0 <= xx < width && 0 <= yy < y ==> pixels@[pixel_index(xx, yy, width as int)]
                    == spec_pixel_color(xx, yy, *dims, *bounds, *params, *variant, *policy),
        decreases height - y,
    {
        let mut x: u32 = 0;
        while x < width
            invariant
                dims.width == width,
                dims.height == height,
                dims.valid(),
                dims.fits(),
                bounds.valid(),
                bounds.fits(),
                params.valid(),
                params.fits(),
                variant.fits(),
                policy.fits(),
                y < height,
                x <= width,
                pixels@.len() == (y as int) * (width as int) + (x as int),
                forall|xx: int, yy: int|
                    0 <= xx < width && 0 <= yy < y ==> pixels@[pixel_index(xx, yy, width as int)]
                        == spec_pixel_color(xx, yy, *dims, *bounds, *params, *variant, *policy),
                forall|xx: int|
                    0 <= xx < x ==> pixels@[pixel_index(xx, y as int, width as int)]
                        == spec_pixel_color(
                        xx,
                        y as int,
                        *dims,
                        *bounds,
                        *params,
                        *variant,
                        *policy,
                    ),
            decreases width - x,
        {
            let point = pixel_to_point(x, y, dims, bounds);
            let count = evaluate_pixel(point, params, variant);
            let color = apply_policy(policy, count, params.max_iterations);
            pixels.push(color);
            proof {
                assert forall|xx: int, yy: int| 0 <= xx < width && 0 <= yy < y implies pixels@[
                    pixel_index(xx, yy, width as int)] == spec_pixel_color(
                    xx,
                    yy,
                    *dims,
                    *bounds,
                    *params,
                    *variant,
                    *policy,
                ) by {
                    lemma_pixel_index_in_range(xx, yy, width as int, y as int);
                }
            }
            x = x + 1;
        }
        proof {
            assert(((y as int) + 1) * (width as int) == (y as int) * (width as int) + (
            width as int)) by (nonlinear_arith);
        }
        y = y + 1;
    }
    proof {
        assert((height as int) * (width as int) == (width as int) * (height as int))
            by (nonlinear_arith);
    }
    Ok(FrameBuffer { width, height, pixels })
}

} // verus!
