//! Pixel grid, viewport, and the pixel-to-plane mapping.

use vstd::prelude::*;

verus! {

/// Largest magnitude, in fixed-point units, that a viewport edge or a plane
/// constant may have. Keeps every product taken during iteration inside
/// `i128` and every scaled-down value inside `i64`.
pub const COORD_LIMIT: i64 = 0x4000_0000;

/// Pixel grid resolution.
#[derive(Clone, Copy, PartialEq, Eq, Structural, Debug)]
pub struct ImageDimensions {
    pub width: u32,
    pub height: u32,
}

/// Largest width or height the renderer accepts; keeps `width * height`
/// within the index range of a pixel buffer on any machine.
pub const DIMENSION_LIMIT: u32 = 0xffff;

impl ImageDimensions {
    /// Both axes are at least one pixel.
    pub open spec fn valid(self) -> bool {
        self.width >= 1 && self.height >= 1
    }

    /// Machine limit: the pixel count fits comfortably in a buffer index.
    pub open spec fn fits(self) -> bool {
        self.width <= DIMENSION_LIMIT && self.height <= DIMENSION_LIMIT
    }
}

/// Rectangular region of the complex plane, in fixed-point units.
#[derive(Clone, Copy, PartialEq, Eq, Structural, Debug)]
pub struct ViewportBounds {
    pub x_min: i64,
    pub x_max: i64,
    pub y_min: i64,
    pub y_max: i64,
}

impl ViewportBounds {
    /// The region is non-degenerate on both axes.
    pub open spec fn valid(self) -> bool {
        self.x_min < self.x_max && self.y_min < self.y_max
    }

    /// Machine limit: every edge is within `COORD_LIMIT`.
    pub open spec fn fits(self) -> bool {
        &&& -COORD_LIMIT <= self.x_min <= COORD_LIMIT
        &&& -COORD_LIMIT <= self.x_max <= COORD_LIMIT
        &&& -COORD_LIMIT <= self.y_min <= COORD_LIMIT
        &&& -COORD_LIMIT <= self.y_max <= COORD_LIMIT
    }
}

/// A point of the complex plane, both parts in fixed-point units.
#[derive(Clone, Copy, PartialEq, Eq, Structural, Debug)]
pub struct ComplexPoint {
    pub re: i64,
    pub im: i64,
}

impl ComplexPoint {
    /// Machine limit for points used as iteration constants.
    pub open spec fn fits(self) -> bool {
        &&& -COORD_LIMIT <= self.re <= COORD_LIMIT
        &&& -COORD_LIMIT <= self.im <= COORD_LIMIT
    }
}

/// Plane coordinate of pixel `p` on the axis running from `lo` to `hi` over
/// `len` pixels: `lo + p * (hi - lo) / len`, rounded down. Pixel `0` lands on
/// `lo` exactly; pixel `len - 1` stays strictly below `hi` (the half-open
/// mapping policy).
pub open spec fn map_axis(p: int, len: int, lo: int, hi: int) -> int {
    lo + (p * (hi - lo)) / len
}

/// Map pixel coordinates to the point of the complex plane they denote.
pub fn pixel_to_point(x: u32, y: u32, dims: &ImageDimensions, bounds: &ViewportBounds) -> (p:
    ComplexPoint)
    requires
        dims.valid(),
        bounds.valid(),
        bounds.fits(),
        x < dims.width,
        y < dims.height,
    ensures
        p.re == map_axis(x as int, dims.width as int, bounds.x_min as int, bounds.x_max as int),
        p.im == map_axis(y as int, dims.height as int, bounds.y_min as int, bounds.y_max as int),
        bounds.x_min <= p.re < bounds.x_max,
        bounds.y_min <= p.im < bounds.y_max,
        p.fits(),
{
    let re = axis_coordinate(x, dims.width, bounds.x_min, bounds.x_max);
    let im = axis_coordinate(y, dims.height, bounds.y_min, bounds.y_max);
    ComplexPoint { re, im }
}

/// One axis of the pixel-to-plane mapping.
fn axis_coordinate(p: u32, len: u32, lo: i64, hi: i64) -> (r: i64)
    requires
        1 <= len,
        p < len,
        lo < hi,
        -COORD_LIMIT <= lo <= COORD_LIMIT,
        -COORD_LIMIT <= hi <= COORD_LIMIT,
    ensures
        r == map_axis(p as int, len as int, lo as int, hi as int),
        lo <= r < hi,
{
    let span: i64 = hi - lo;
    proof {
        assert((p as u128) * (span as u128) < 0x8000000000000000u128) by (nonlinear_arith)
            requires
                (p as u128) < 0x100000000u128,
                (span as u128) <= 0x80000000u128,
        ;
    }
    let num: u128 = (p as u128) * (span as u128);
    let q: u128 = num / (len as u128);
    proof {
        assert(num == (p as int) * (span as int)) by (nonlinear_arith)
            requires
                num == (p as u128) as int * (span as u128) as int,
                (p as u128) as int == p as int,
                (span as u128) as int == span as int,
        ;
        assert((p as int) * (span as int) <= ((len as int) - 1) * (span as int))
            by (nonlinear_arith)
            requires
                0 <= p as int <= (len as int) - 1,
                0 <= span as int,
        ;
        // q <= span - 1: num <= (len - 1) * span, so num / len < span.
        vstd::arithmetic::div_mod::lemma_div_is_ordered(
            num as int,
            ((len as int) - 1) * (span as int),
            len as int,
        );
        assert((((len as int) - 1) * (span as int)) / (len as int) <= (span as int) - 1)
            by (nonlinear_arith)
            requires
                1 <= len as int,
                1 <= span as int,
        ;
        vstd::arithmetic::div_mod::lemma_div_pos_is_pos(num as int, len as int);
    }
    lo + (q as i64)
}

/// The mapping is the floor of an exactly linear function of the pixel
/// coordinate, is monotonic in it, and sends pixel `0` exactly to the lower
/// viewport edge.
pub proof fn lemma_map_axis_linear_monotonic(x1: int, x2: int, len: int, lo: int, hi: int)
    requires
        0 <= x1 <= x2,
        1 <= len,
        lo < hi,
    ensures
        map_axis(0, len, lo, hi) == lo,
        map_axis(x1, len, lo, hi) <= map_axis(x2, len, lo, hi),
        len * (map_axis(x1, len, lo, hi) - lo) <= x1 * (hi - lo) < len * (map_axis(x1, len, lo, hi)
            - lo) + len,
{
    let span = hi - lo;
    assert(0 * span == 0) by (nonlinear_arith);
    vstd::arithmetic::div_mod::lemma_div_of0(len);
    assert(x1 * span <= x2 * span) by (nonlinear_arith)
        requires
            0 <= x1 <= x2,
            0 <= span,
    ;
    vstd::arithmetic::div_mod::lemma_div_is_ordered(x1 * span, x2 * span, len);
    vstd::arithmetic::div_mod::lemma_fundamental_div_mod(x1 * span, len);
    vstd::arithmetic::div_mod::lemma_mod_bound(x1 * span, len);
    assert(len * ((x1 * span) / len) == x1 * span - (x1 * span) % len);
}

} // verus!
