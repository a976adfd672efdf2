//! Escape-time evaluation of the quadratic recurrence `z := z * z + c`.
//!
//! Both canonical variants run the same bounded loop: starting from a seed
//! `z` with the count at `1` (the first completed iterate), the recurrence is
//! applied while `|z|^2` stays below the squared escape radius and the count
//! is below the cap. The count at termination is returned; it never tells
//! "escaped on the last iterate" apart from "never escaped", by design.
//!
//! - Mandelbrot: `c` comes from the pixel, the seed is `z1 = 0^2 + c = c`,
//!   and the escape radius is fixed at `2.0`.
//! - Julia: `c` is a fixed tunable constant, the seed comes from the pixel,
//!   and the escape radius is configurable.

use vstd::prelude::*;
use crate::fixed::{SCALE, div_trunc, lemma_div_trunc_bound, scale_down};
use crate::geometry::{COORD_LIMIT, ComplexPoint};

verus! {

/// Escape radius of the Mandelbrot variant: `2.0` in fixed-point units.
pub const MANDELBROT_RADIUS: i64 = 131072;

/// Largest seed magnitude, per component, that one application of the
/// recurrence accepts without its squares overflowing.
pub const STEP_LIMIT: i64 = 0x20_0000_0000;

/// Largest magnitude, per component, of any iterate the evaluator holds.
pub const ITERATE_LIMIT: i64 = 0x2000_0000_0000_0000;

/// Termination parameters of the evaluator.
#[derive(Clone, Copy, PartialEq, Eq, Structural, Debug)]
pub struct IterationParams {
    /// Escape radius of the Julia variant, in fixed-point units.
    pub escape_radius: i64,
    /// Cap on the iteration count.
    pub max_iterations: u32,
}

impl IterationParams {
    /// Both parameters are positive.
    pub open spec fn valid(self) -> bool {
        self.escape_radius >= 1 && self.max_iterations >= 1
    }

    /// Machine limit: the squared radius stays within the product range.
    pub open spec fn fits(self) -> bool {
        self.escape_radius <= COORD_LIMIT
    }
}

/// Real part of `z * z + c`, in fixed-point units.
pub open spec fn step_re(zx: int, zy: int, cx: int) -> int {
    div_trunc(zx * zx - zy * zy, SCALE as int) + cx
}

/// Imaginary part of `z * z + c`, in fixed-point units.
pub open spec fn step_im(zx: int, zy: int, cy: int) -> int {
    div_trunc(2 * (zx * zy), SCALE as int) + cy
}

/// The trajectory has left the disk of squared radius `rsq`
/// (`rsq` is in `SCALE * SCALE` units, like the squared norm).
pub open spec fn escaped(zx: int, zy: int, rsq: int) -> bool {
    zx * zx + zy * zy >= rsq
}

/// Count returned by the bounded escape loop: starting at iterate `z` with
/// the count already at `count`, apply the recurrence until the trajectory
/// escapes or the count reaches `max`.
pub open spec fn escape_time(zx: int, zy: int, cx: int, cy: int, rsq: int, count: int, max: int)
    -> int
    decreases max - count,
{
    if escaped(zx, zy, rsq) || count >= max {
        count
    } else {
        escape_time(step_re(zx, zy, cx), step_im(zx, zy, cy), cx, cy, rsq, count + 1, max)
    }
}

/// Count of the Mandelbrot variant for the plane constant `c`: the seed is
/// `z1 = 0^2 + c = c`, counted as iterate `1`, with escape radius `2.0`.
pub open spec fn spec_mandelbrot_count(cx: int, cy: int, max: int) -> int {
    escape_time(cx, cy, cx, cy, (MANDELBROT_RADIUS as int) * (MANDELBROT_RADIUS as int), 1, max)
}

/// Count of the Julia variant for constant `c`, seed `z` and radius `r`.
pub open spec fn spec_julia_count(zx: int, zy: int, cx: int, cy: int, r: int, max: int) -> int {
    escape_time(zx, zy, cx, cy, r * r, 1, max)
}

/// Magnitude bound of a product, from magnitude bounds of its factors.
proof fn lemma_mul_le(a: int, b: int, m: int)
    by (nonlinear_arith)
    requires
        -m <= a <= m,
        -m <= b <= m,
        0 <= m,
    ensures
        -(m * m) <= a * b <= m * m,
{
}

/// Squares are nonnegative, and both parts of `z * z` are bounded by the
/// squared norm.
proof fn lemma_norm_facts(zx: int, zy: int)
    by (nonlinear_arith)
    ensures
        zx * zx >= 0,
        zy * zy >= 0,
        -(zx * zx + zy * zy) <= zx * zx - zy * zy <= zx * zx + zy * zy,
        -(zx * zx + zy * zy) <= 2 * (zx * zy) <= zx * zx + zy * zy,
{
}

/// A component whose square is below `l * l` is itself below `l`.
proof fn lemma_square_bound(z: int, l: int)
    by (nonlinear_arith)
    requires
        z * z < l * l,
        0 < l,
    ensures
        -l < z < l,
{
}

/// The escape count always lies between the starting count and the cap.
pub proof fn lemma_escape_time_in_range(
    zx: int,
    zy: int,
    cx: int,
    cy: int,
    rsq: int,
    count: int,
    max: int,
)
    requires
        count <= max,
    ensures
        count <= escape_time(zx, zy, cx, cy, rsq, count, max) <= max,
    decreases max - count,
{
    if !(escaped(zx, zy, rsq) || count >= max) {
        lemma_escape_time_in_range(
            step_re(zx, zy, cx),
            step_im(zx, zy, cy),
            cx,
            cy,
            rsq,
            count + 1,
            max,
        );
    }
}

/// From the origin with constant zero the trajectory never moves, so it
/// never escapes and the count runs to the cap.
proof fn lemma_origin_fixed_point(rsq: int, count: int, max: int)
    requires
        rsq > 0,
        count <= max,
    ensures
        escape_time(0, 0, 0, 0, rsq, count, max) == max,
    decreases max - count,
{
    assert(step_re(0, 0, 0) == 0);
    assert(step_im(0, 0, 0) == 0);
    if count < max {
        lemma_origin_fixed_point(rsq, count + 1, max);
    }
}

/// Mandelbrot on `c = 0 + 0i` never escapes: the count is exactly the cap.
pub proof fn lemma_mandelbrot_origin_in_set(max: int)
    requires
        max >= 1,
    ensures
        spec_mandelbrot_count(0, 0, max) == max,
{
    lemma_origin_fixed_point((MANDELBROT_RADIUS as int) * (MANDELBROT_RADIUS as int), 1, max);
}

/// Mandelbrot on a constant already on or outside the escape circle
/// (`|c| >= 2.0`, as `c = 2 + 0i` is) escapes at iteration `1`, whatever the
/// cap.
pub proof fn lemma_mandelbrot_immediate_escape(cx: int, cy: int, max: int)
    requires
        max >= 1,
        cx * cx + cy * cy >= (MANDELBROT_RADIUS as int) * (MANDELBROT_RADIUS as int),
    ensures
        spec_mandelbrot_count(cx, cy, max) == 1,
{
}

/// One application of the recurrence: `z * z + c` in fixed-point.
fn complex_step(z: ComplexPoint, c: ComplexPoint) -> (r: ComplexPoint)
    requires
        -STEP_LIMIT <= z.re <= STEP_LIMIT,
        -STEP_LIMIT <= z.im <= STEP_LIMIT,
        c.fits(),
    ensures
        r.re == step_re(z.re as int, z.im as int, c.re as int),
        r.im == step_im(z.re as int, z.im as int, c.im as int),
        -0x1000_0000_0000_0000 <= r.re <= 0x1000_0000_0000_0000,
        -0x1000_0000_0000_0000 <= r.im <= 0x1000_0000_0000_0000,
{
    proof {
        assert(-0x20_0000_0000 <= z.re <= 0x20_0000_0000);
        assert(-0x20_0000_0000 <= z.im <= 0x20_0000_0000);
        lemma_mul_le(z.re as int, z.re as int, 0x20_0000_0000);
        lemma_mul_le(z.im as int, z.im as int, 0x20_0000_0000);
        lemma_mul_le(z.re as int, z.im as int, 0x20_0000_0000);
        lemma_norm_facts(z.re as int, z.im as int);
        // Squares are at most 2^74, so both numerators are at most 2^75,
        // which scales down to at most 2^59.
        lemma_div_trunc_bound(
            (z.re as int) * (z.re as int) - (z.im as int) * (z.im as int),
            SCALE as int,
            0x800_0000_0000_0000_0000,
        );
        lemma_div_trunc_bound(
            2 * ((z.re as int) * (z.im as int)),
            SCALE as int,
            0x800_0000_0000_0000_0000,
        );
        assert(0x800_0000_0000_0000_0000int / (SCALE as int) == 0x800_0000_0000_0000int);
    }
    let zx2: i128 = (z.re as i128) * (z.re as i128);
    let zy2: i128 = (z.im as i128) * (z.im as i128);
    let cross: i128 = 2 * ((z.re as i128) * (z.im as i128));
    let re: i64 = scale_down(zx2 - zy2) + c.re;
    let im: i64 = scale_down(cross) + c.im;
    ComplexPoint { re, im }
}

/// The loop condition: the squared norm of `z` is still below the squared
/// escape radius.
fn below_radius(zx: i64, zy: i64, escape_radius: i64) -> (b: bool)
    requires
        -ITERATE_LIMIT <= zx <= ITERATE_LIMIT,
        -ITERATE_LIMIT <= zy <= ITERATE_LIMIT,
        0 < escape_radius <= COORD_LIMIT,
    ensures
        b == !escaped(zx as int, zy as int, (escape_radius as int) * (escape_radius as int)),
{
    proof {
        assert(-0x2000_0000_0000_0000 <= zx <= 0x2000_0000_0000_0000);
        assert(-0x2000_0000_0000_0000 <= zy <= 0x2000_0000_0000_0000);
        lemma_mul_le(zx as int, zx as int, 0x2000_0000_0000_0000);
        lemma_mul_le(zy as int, zy as int, 0x2000_0000_0000_0000);
        lemma_mul_le(escape_radius as int, escape_radius as int, 0x4000_0000);
    }
    let norm_sq: i128 = (zx as i128) * (zx as i128) + (zy as i128) * (zy as i128);
    let radius_sq: i128 = (escape_radius as i128) * (escape_radius as i128);
    norm_sq < radius_sq
}

/// The bounded escape loop shared by both variants: iterate from seed `z`
/// with the count starting at `start_count` until escape or the cap.
pub fn escape_iterations(
    z: ComplexPoint,
    c: ComplexPoint,
    escape_radius: i64,
    start_count: u32,
    max_iterations: u32,
) -> (count: u32)
    requires
        -ITERATE_LIMIT <= z.re <= ITERATE_LIMIT,
        -ITERATE_LIMIT <= z.im <= ITERATE_LIMIT,
        c.fits(),
        0 < escape_radius <= COORD_LIMIT,
        1 <= start_count <= max_iterations,
    ensures
        count == escape_time(
            z.re as int,
            z.im as int,
            c.re as int,
            c.im as int,
            (escape_radius as int) * (escape_radius as int),
            start_count as int,
            max_iterations as int,
        ),
        start_count <= count <= max_iterations,
{
    let mut zx: i64 = z.re;
    let mut zy: i64 = z.im;
    let mut count: u32 = start_count;
    while below_radius(zx, zy, escape_radius) && count < max_iterations
        invariant
            -ITERATE_LIMIT <= zx <= ITERATE_LIMIT,
            -ITERATE_LIMIT <= zy <= ITERATE_LIMIT,
            c.fits(),
            0 < escape_radius <= COORD_LIMIT,
            start_count <= count <= max_iterations,
            escape_time(
                z.re as int,
                z.im as int,
                c.re as int,
                c.im as int,
                (escape_radius as int) * (escape_radius as int),
                start_count as int,
                max_iterations as int,
            ) == escape_time(
                zx as int,
                zy as int,
                c.re as int,
                c.im as int,
                (escape_radius as int) * (escape_radius as int),
                count as int,
                max_iterations as int,
            ),
        decreases max_iterations - count,
    {
        proof {
            lemma_norm_facts(zx as int, zy as int);
            lemma_mul_le(escape_radius as int, escape_radius as int, 0x4000_0000);
            // Inside the loop the squared norm is below the squared radius,
            // which is at most 2^60, so each component is below 2^30 and one
            // more step stays far inside the iterate range.
            lemma_square_bound(zx as int, 0x4000_0000);
            lemma_square_bound(zy as int, 0x4000_0000);
            lemma_div_trunc_bound(
                (zx as int) * (zx as int) - (zy as int) * (zy as int),
                SCALE as int,
                0x1000_0000_0000_0000,
            );
            lemma_div_trunc_bound(
                2 * ((zx as int) * (zy as int)),
                SCALE as int,
                0x1000_0000_0000_0000,
            );
            assert(0x1000_0000_0000_0000int / (SCALE as int) == 0x1000_0000_0000int);
        }
        let znew = complex_step(ComplexPoint { re: zx, im: zy }, c);
        zx = znew.re;
        zy = znew.im;
        count = count + 1;
    }
    proof {
        lemma_escape_time_in_range(
            zx as int,
            zy as int,
            c.re as int,
            c.im as int,
            (escape_radius as int) * (escape_radius as int),
            count as int,
            max_iterations as int,
        );
    }
    count
}

/// Mandelbrot variant: the recurrence is applied once to the caller's seed
/// (`z1 = z^2 + c`, counted as iterate `iterations`) and the loop then runs
/// with the escape radius fixed at `2.0`.
pub fn mandelbrot(c: ComplexPoint, z: ComplexPoint, iterations: u32, max_iterations: u32) -> (count:
    u32)
    requires
        c.fits(),
        -STEP_LIMIT <= z.re <= STEP_LIMIT,
        -STEP_LIMIT <= z.im <= STEP_LIMIT,
        1 <= iterations <= max_iterations,
    ensures
        count == escape_time(
            step_re(z.re as int, z.im as int, c.re as int),
            step_im(z.re as int, z.im as int, c.im as int),
            c.re as int,
            c.im as int,
            (MANDELBROT_RADIUS as int) * (MANDELBROT_RADIUS as int),
            iterations as int,
            max_iterations as int,
        ),
        iterations <= count <= max_iterations,
{
    let z1 = complex_step(z, c);
    escape_iterations(z1, c, MANDELBROT_RADIUS, iterations, max_iterations)
}

/// Julia variant: iterate the caller's seed under the fixed constant `c`
/// with a configurable escape radius, counting from `1`.
pub fn julia(c: ComplexPoint, z: ComplexPoint, escape_radius: i64, max_iterations: u32) -> (count:
    u32)
    requires
        c.fits(),
        -ITERATE_LIMIT <= z.re <= ITERATE_LIMIT,
        -ITERATE_LIMIT <= z.im <= ITERATE_LIMIT,
        0 < escape_radius <= COORD_LIMIT,
        max_iterations >= 1,
    ensures
        count == spec_julia_count(
            z.re as int,
            z.im as int,
            c.re as int,
            c.im as int,
            escape_radius as int,
            max_iterations as int,
        ),
        1 <= count <= max_iterations,
{
    escape_iterations(z, c, escape_radius, 1, max_iterations)
}

} // verus!
