use escape_time::geometry::ComplexPoint;
use escape_time::evaluator::{MANDELBROT_RADIUS, julia, mandelbrot};

const SCALE: i64 = 65536;

fn origin() -> ComplexPoint {
    ComplexPoint { re: 0, im: 0 }
}

#[test]
fn mandelbrot_origin_never_escapes() {
    for max in [1u32, 2, 10, 255] {
        assert_eq!(mandelbrot(origin(), origin(), 1, max), max);
    }
}

#[test]
fn mandelbrot_two_escapes_at_iteration_one() {
    let c = ComplexPoint { re: 2 * SCALE, im: 0 };
    for max in [1u32, 2, 10, 255] {
        assert_eq!(mandelbrot(c, origin(), 1, max), 1);
    }
}

#[test]
fn mandelbrot_one_escapes_at_iteration_two() {
    // z1 = 1, z2 = 1 + 1 = 2, |z2| reaches the radius at count 2.
    let c = ComplexPoint { re: SCALE, im: 0 };
    assert_eq!(mandelbrot(c, origin(), 1, 10), 2);
}

#[test]
fn mandelbrot_count_starts_at_the_given_iteration() {
    let c = ComplexPoint { re: 2 * SCALE, im: 0 };
    assert_eq!(mandelbrot(c, origin(), 3, 10), 3);
}

#[test]
fn julia_seed_outside_radius_returns_one() {
    let c = ComplexPoint { re: -45875, im: 17704 };
    let z = ComplexPoint { re: 3 * SCALE, im: 0 };
    assert_eq!(julia(c, z, 2 * SCALE, 255), 1);
}

#[test]
fn julia_origin_with_zero_constant_never_escapes() {
    assert_eq!(julia(origin(), origin(), 2 * SCALE, 77), 77);
}

#[test]
fn escape_counts_stay_in_range_over_the_plane() {
    // Fuzz over a grid of seeds and constants in [-3, 3] x [-3, 3].
    let max = 40u32;
    let step = SCALE / 2;
    let mut coords: Vec<i64> = Vec::new();
    let mut v = -3 * SCALE;
    while v <= 3 * SCALE {
        coords.push(v);
        v += step;
    }
    for &cx in &coords {
        for &cy in &coords {
            let c = ComplexPoint { re: cx, im: cy };
            for &zx in &coords {
                for &zy in &coords {
                    let z = ComplexPoint { re: zx, im: zy };
                    let count = julia(c, z, 2 * SCALE, max);
                    assert!(1 <= count && count <= max);
                }
            }
            let m = mandelbrot(c, ComplexPoint { re: 0, im: 0 }, 1, max);
            assert!(1 <= m && m <= max);
        }
    }
}

#[test]
fn mandelbrot_radius_is_two() {
    assert_eq!(MANDELBROT_RADIUS, 2 * SCALE);
}
