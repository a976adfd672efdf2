//! Animation sequencing: advance a scalar parameter over a half-open range
//! by a fixed step, and render one frame per value in index order.

use vstd::prelude::*;
use crate::geometry::{ImageDimensions, ViewportBounds, ComplexPoint};
use crate::evaluator::IterationParams;
use crate::render::{
    ColorPolicy,
    FractalVariant,
    FrameBuffer,
    RenderError,
    render_frame,
    spec_frame_ok,
};

verus! {

/// Largest magnitude of a sequencer endpoint or step, in the caller's
/// parameter units.
pub const PARAM_LIMIT: i64 = 0x100_0000_0000;

/// A parameter sweep over `[start, end)` with a fixed positive step. The
/// unit of the parameter is the caller's choice; the sequencer only
/// advances it.
#[derive(Clone, Copy, PartialEq, Eq, Structural, Debug)]
pub struct AnimationSequencer {
    pub start: i64,
    pub end: i64,
    pub step: i64,
}

impl AnimationSequencer {
    /// The step advances.
    pub open spec fn valid(self) -> bool {
        self.step >= 1
    }

    /// Machine limit on the sweep range.
    pub open spec fn fits(self) -> bool {
        &&& -PARAM_LIMIT <= self.start <= PARAM_LIMIT
        &&& -PARAM_LIMIT <= self.end <= PARAM_LIMIT
        &&& self.step <= PARAM_LIMIT
    }

    /// Parameter value of frame `i`.
    pub open spec fn spec_value(self, i: int) -> int {
        self.start + i * self.step
    }

    /// The finite, restartable sequence of parameter values: frame `i` gets
    /// `start + i * step`, for every such value below `end`, in index
    /// order. The listed clauses pin the length: the values are exactly
    /// those of the sweep that lie in the half-open range.
    pub fn parameter_values(&self) -> (vals: Vec<i64>)
        requires
            self.valid(),
            self.fits(),
        ensures
            forall|i: int| 0 <= i < vals@.len() ==> vals@[i] == self.spec_value(i),
            forall|i: int| 0 <= i < vals@.len() ==> #[trigger] vals@[i] < self.end,
            self.spec_value(vals@.len() as int) >= self.end,
            vals@.len() == 0 <==> self.start >= self.end,
    {
        let mut vals: Vec<i64> = Vec::new();
        let mut cur: i64 = self.start;
        while cur < self.end
            invariant
                self.valid(),
                self.fits(),
                self.start <= cur,
                cur == self.spec_value(vals@.len() as int),
                forall|i: int| 0 <= i < vals@.len() ==> vals@[i] == self.spec_value(i),
                forall|i: int| 0 <= i < vals@.len() ==> #[trigger] vals@[i] < self.end,
            decreases (if cur < self.end {
                self.end - cur
            } else {
                0int
            }),
        {
            vals.push(cur);
            proof {
                let n = vals@.len() as int;
                assert(n * (self.step as int) == (n - 1) * (self.step as int) + (self.step as int))
                    by (nonlinear_arith);
            }
            cur = cur + self.step;
        }
        vals
    }
}

/// Render one Julia frame per constant, in index order: frame `i` of the
/// result is exactly the frame for `constants[i]`. Validation failures
/// abort the whole sequence before any frame is rendered.
pub fn render_frames(
    constants: &Vec<ComplexPoint>,
    dims: &ImageDimensions,
    bounds: &ViewportBounds,
    params: &IterationParams,
    policy: &ColorPolicy,
) -> (r: Result<Vec<FrameBuffer>, RenderError>)
    requires
        dims.fits(),
        bounds.fits(),
        params.fits(),
        policy.fits(),
        forall|i: int| 0 <= i < constants@.len() ==> (#[trigger] constants@[i]).fits(),
    ensures
        r is Ok <==> dims.valid() && bounds.valid() && params.valid(),
        match r {
            Ok(frames) => {
                &&& frames@.len() == constants@.len()
                &&& forall|i: int|
                    0 <= i < frames@.len() ==> spec_frame_ok(
                        #[trigger] frames@[i],
                        *dims,
                        *bounds,
                        *params,
                        FractalVariant::Julia { c: constants@[i] },
                        *policy,
                    )
            },
            Err(e) => {
                &&& (e == RenderError::InvalidDimensions <==> !dims.valid())
                &&& (e == RenderError::InvalidBounds <==> dims.valid() && !bounds.valid())
                &&& (e == RenderError::InvalidIterationParams <==> dims.valid() && bounds.valid()
                    && !params.valid())
            },
        },
{
    if dims.width == 0 || dims.height == 0 {
        return Err(RenderError::InvalidDimensions);
    }
    if bounds.x_max <= bounds.x_min || bounds.y_max <= bounds.y_min {
        return Err(RenderError::InvalidBounds);
    }
    if params.escape_radius <= 0 || params.max_iterations == 0 {
        return Err(RenderError::InvalidIterationParams);
    }
    let mut frames: Vec<FrameBuffer> = Vec::new();
    let mut i: usize = 0;
    while i < constants.len()
        invariant
            dims.valid(),
            dims.fits(),
            bounds.valid(),
            bounds.fits(),
            params.valid(),
            params.fits(),
            policy.fits(),
            forall|j: int| 0 <= j < constants@.len() ==> (#[trigger] constants@[j]).fits(),
            i <= constants@.len(),
            frames@.len() == i,
            forall|j: int|
                0 <= j < i ==> spec_frame_ok(
                    #[trigger] frames@[j],
                    *dims,
                    *bounds,
                    *params,
                    FractalVariant::Julia { c: constants@[j] },
                    *policy,
                ),
        decreases constants@.len() - i,
    {
        let c = constants[i];
        let variant = FractalVariant::Julia { c };
        match render_frame(dims, bounds, params, &variant, policy) {
            Ok(fb) => {
                frames.push(fb);
            },
            Err(e) => {
                // Unreachable: the settings were validated above, and the
                // renderer succeeds exactly on valid settings.
                proof {
                    assert(false);
                }
                return Err(e);
            },
        }
        i = i + 1;
    }
    Ok(frames)
}

} // verus!
