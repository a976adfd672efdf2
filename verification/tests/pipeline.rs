use escape_time::animate::{AnimationSequencer, render_frames};
use escape_time::color::ColorSpec;
use escape_time::evaluator::{IterationParams, julia};
use escape_time::geometry::{ComplexPoint, ImageDimensions, ViewportBounds, pixel_to_point};
use escape_time::render::{ColorPolicy, FractalVariant, RenderError, render_frame};

const SCALE: i64 = 65536;

fn square_bounds() -> ViewportBounds {
    ViewportBounds { x_min: -2 * SCALE, x_max: 2 * SCALE, y_min: -2 * SCALE, y_max: 2 * SCALE }
}

#[test]
fn frame_has_one_entry_per_pixel() {
    let dims = ImageDimensions { width: 5, height: 3 };
    let params = IterationParams { escape_radius: 10 * SCALE, max_iterations: 255 };
    let fb = render_frame(
        &dims,
        &square_bounds(),
        &params,
        &FractalVariant::Julia { c: ComplexPoint { re: -45875, im: 17704 } },
        &ColorPolicy::Grayscale,
    )
    .unwrap();
    assert_eq!(fb.width, 5);
    assert_eq!(fb.height, 3);
    assert_eq!(fb.pixels.len(), 15);
}

#[test]
fn frame_pixels_match_the_per_pixel_pipeline() {
    let dims = ImageDimensions { width: 5, height: 3 };
    let bounds = square_bounds();
    let c = ComplexPoint { re: -45875, im: 17704 };
    let params = IterationParams { escape_radius: 10 * SCALE, max_iterations: 255 };
    let fb = render_frame(
        &dims,
        &bounds,
        &params,
        &FractalVariant::Julia { c },
        &ColorPolicy::Grayscale,
    )
    .unwrap();
    for y in 0..3u32 {
        for x in 0..5u32 {
            let z = pixel_to_point(x, y, &dims, &bounds);
            let count = julia(c, z, 10 * SCALE, 255);
            let v = if count > 255 { 255 } else { count as u8 };
            let idx = (y * 5 + x) as usize;
            assert_eq!(fb.pixels[idx], ColorSpec { red: v, green: v, blue: v });
        }
    }
}

#[test]
fn end_to_end_mandelbrot_discrete_four_by_four() {
    // dims 4x4, bounds [-2,2] x [-2,2], cap 10, Mandelbrot, discrete
    // palette. Pixel (0,0) maps to c = -2 - 2i, which escapes immediately
    // and gets the early-escape bucket color; the center pixel maps to
    // c = 0, which never escapes and gets the in-set color.
    let dims = ImageDimensions { width: 4, height: 4 };
    let params = IterationParams { escape_radius: 2 * SCALE, max_iterations: 10 };
    let fb = render_frame(
        &dims,
        &square_bounds(),
        &params,
        &FractalVariant::Mandelbrot,
        &ColorPolicy::Discrete,
    )
    .unwrap();
    assert_eq!(fb.pixels.len(), 16);
    // Corner: count 1, the white early-escape bucket.
    assert_eq!(fb.pixels[0], ColorSpec { red: 255, green: 255, blue: 255 });
    // Center: pixel (2,2) maps exactly to 0 + 0i, count = cap = 10.
    assert_eq!(fb.pixels[(2 * 4 + 2) as usize], ColorSpec { red: 0, green: 178, blue: 51 });
}

#[test]
fn invalid_settings_are_rejected_in_order() {
    let dims = ImageDimensions { width: 4, height: 4 };
    let zero_dims = ImageDimensions { width: 0, height: 4 };
    let bounds = square_bounds();
    let flat_bounds =
        ViewportBounds { x_min: SCALE, x_max: SCALE, y_min: -SCALE, y_max: SCALE };
    let params = IterationParams { escape_radius: 2 * SCALE, max_iterations: 10 };
    let no_iterations = IterationParams { escape_radius: 2 * SCALE, max_iterations: 0 };
    let no_radius = IterationParams { escape_radius: 0, max_iterations: 10 };
    let variant = FractalVariant::Mandelbrot;
    let policy = ColorPolicy::Discrete;

    let r = render_frame(&zero_dims, &bounds, &params, &variant, &policy);
    assert_eq!(r.unwrap_err(), RenderError::InvalidDimensions);
    let r = render_frame(&dims, &flat_bounds, &params, &variant, &policy);
    assert_eq!(r.unwrap_err(), RenderError::InvalidBounds);
    let r = render_frame(&dims, &bounds, &no_iterations, &variant, &policy);
    assert_eq!(r.unwrap_err(), RenderError::InvalidIterationParams);
    let r = render_frame(&dims, &bounds, &no_radius, &variant, &policy);
    assert_eq!(r.unwrap_err(), RenderError::InvalidIterationParams);
    // Dimension problems are reported before bounds problems.
    let r = render_frame(&zero_dims, &flat_bounds, &no_radius, &variant, &policy);
    assert_eq!(r.unwrap_err(), RenderError::InvalidDimensions);
}

#[test]
fn sequencer_range_two_steps_gives_two_frames_in_order() {
    // Range [0, 0.002) with step 0.001, in thousandths: exactly two
    // parameter values, for frames 0 and 1 in that order.
    let seq = AnimationSequencer { start: 0, end: 2, step: 1 };
    let values = seq.parameter_values();
    assert_eq!(values, vec![0, 1]);

    let dims = ImageDimensions { width: 2, height: 2 };
    let params = IterationParams { escape_radius: 2 * SCALE, max_iterations: 8 };
    let constants =
        vec![ComplexPoint { re: SCALE, im: 0 }, ComplexPoint { re: 0, im: SCALE / 2 }];
    let frames = render_frames(
        &constants,
        &dims,
        &square_bounds(),
        &params,
        &ColorPolicy::Discrete,
    )
    .unwrap();
    assert_eq!(frames.len(), 2);
    for (i, c) in constants.iter().enumerate() {
        let alone = render_frame(
            &dims,
            &square_bounds(),
            &params,
            &FractalVariant::Julia { c: *c },
            &ColorPolicy::Discrete,
        )
        .unwrap();
        assert_eq!(frames[i].pixels, alone.pixels);
    }
}

#[test]
fn sequencer_covers_the_half_open_range() {
    let seq = AnimationSequencer { start: 0, end: 10, step: 3 };
    assert_eq!(seq.parameter_values(), vec![0, 3, 6, 9]);

    let exact = AnimationSequencer { start: 0, end: 9, step: 3 };
    assert_eq!(exact.parameter_values(), vec![0, 3, 6]);

    let empty = AnimationSequencer { start: 5, end: 5, step: 1 };
    assert_eq!(empty.parameter_values(), Vec::<i64>::new());

    let negative = AnimationSequencer { start: -4, end: 4, step: 4 };
    assert_eq!(negative.parameter_values(), vec![-4, 0]);
}

#[test]
fn invalid_sequence_settings_reject_every_frame() {
    let dims = ImageDimensions { width: 0, height: 2 };
    let params = IterationParams { escape_radius: 2 * SCALE, max_iterations: 8 };
    let constants = vec![ComplexPoint { re: 0, im: 0 }];
    let r = render_frames(
        &constants,
        &dims,
        &square_bounds(),
        &params,
        &ColorPolicy::Discrete,
    );
    assert_eq!(r.unwrap_err(), RenderError::InvalidDimensions);
}
