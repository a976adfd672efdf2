use escape_time::geometry::{ComplexPoint, ImageDimensions, ViewportBounds, pixel_to_point};

const SCALE: i64 = 65536;

fn square_bounds() -> ViewportBounds {
    ViewportBounds { x_min: -2 * SCALE, x_max: 2 * SCALE, y_min: -2 * SCALE, y_max: 2 * SCALE }
}

#[test]
fn origin_pixel_maps_exactly_to_lower_bounds() {
    let dims = ImageDimensions { width: 4, height: 4 };
    let p = pixel_to_point(0, 0, &dims, &square_bounds());
    assert_eq!(p, ComplexPoint { re: -2 * SCALE, im: -2 * SCALE });

    let dims7 = ImageDimensions { width: 7, height: 3 };
    let b = ViewportBounds { x_min: -SCALE, x_max: 3 * SCALE, y_min: SCALE / 2, y_max: SCALE };
    let q = pixel_to_point(0, 0, &dims7, &b);
    assert_eq!(q, ComplexPoint { re: -SCALE, im: SCALE / 2 });
}

#[test]
fn mapping_is_linear_on_an_even_grid() {
    // With 4 pixels over a span of 4.0 the step divides exactly, so the
    // mapping is exactly linear: -2.0, -1.0, 0.0, 1.0.
    let dims = ImageDimensions { width: 4, height: 4 };
    let bounds = square_bounds();
    for x in 0..4u32 {
        let p = pixel_to_point(x, 0, &dims, &bounds);
        assert_eq!(p.re, -2 * SCALE + (x as i64) * SCALE);
    }
}

#[test]
fn mapping_is_monotonic_and_half_open() {
    let dims = ImageDimensions { width: 3, height: 5 };
    let bounds = square_bounds();
    let mut last_re = i64::MIN;
    for x in 0..3u32 {
        let p = pixel_to_point(x, 0, &dims, &bounds);
        assert!(p.re > last_re);
        assert!(p.re >= bounds.x_min);
        assert!(p.re < bounds.x_max);
        last_re = p.re;
    }
    let mut last_im = i64::MIN;
    for y in 0..5u32 {
        let p = pixel_to_point(0, y, &dims, &bounds);
        assert!(p.im > last_im);
        assert!(p.im >= bounds.y_min);
        assert!(p.im < bounds.y_max);
        last_im = p.im;
    }
}

#[test]
fn uneven_grid_rounds_down() {
    // Span 4.0 over 3 pixels: 262144 / 3 = 87381.33.., rounded down.
    let dims = ImageDimensions { width: 3, height: 3 };
    let p1 = pixel_to_point(1, 1, &dims, &square_bounds());
    assert_eq!(p1.re, -2 * SCALE + 87381);
    let p2 = pixel_to_point(2, 2, &dims, &square_bounds());
    assert_eq!(p2.re, -2 * SCALE + 174762);
}
