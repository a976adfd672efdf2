use escape_time::color::{ColorSpec, continuous_color, hsl_to_rgb, palette_color};

fn rgb(red: u8, green: u8, blue: u8) -> ColorSpec {
    ColorSpec { red, green, blue }
}

#[test]
fn zero_saturation_is_gray_for_any_lightness() {
    for l in [0u32, 10, 25, 50, 99, 100] {
        let expected = ((l * 255) / 100) as u8;
        assert_eq!(hsl_to_rgb(0, 0, l), rgb(expected, expected, expected));
        // The hue does not matter when saturation is zero.
        assert_eq!(hsl_to_rgb(217, 0, l), rgb(expected, expected, expected));
    }
}

#[test]
fn hue_is_periodic_with_period_360() {
    for h in [0u32, 1, 17, 59, 60, 119, 180, 240, 300, 359] {
        assert_eq!(hsl_to_rgb(h, 100, 50), hsl_to_rgb(h + 360, 100, 50));
        assert_eq!(hsl_to_rgb(h, 80, 30), hsl_to_rgb(h + 360, 80, 30));
        assert_eq!(hsl_to_rgb(h, 100, 50), hsl_to_rgb(h + 720, 100, 50));
    }
}

#[test]
fn primary_hues_at_full_saturation() {
    assert_eq!(hsl_to_rgb(0, 100, 50), rgb(255, 0, 0));
    assert_eq!(hsl_to_rgb(60, 100, 50), rgb(255, 255, 0));
    assert_eq!(hsl_to_rgb(120, 100, 50), rgb(0, 255, 0));
    assert_eq!(hsl_to_rgb(240, 100, 50), rgb(0, 0, 255));
}

#[test]
fn lightness_scales_the_channels() {
    // l = 25%: m2 = 5000, m1 = 0, so the strong channel is 127.
    assert_eq!(hsl_to_rgb(0, 100, 25), rgb(127, 0, 0));
    // l = 75%: m2 = 10000, m1 = 5000.
    assert_eq!(hsl_to_rgb(0, 100, 75), rgb(255, 127, 127));
}

#[test]
fn palette_buckets_and_bands() {
    let max = 255u32;
    assert_eq!(palette_color(0, max), rgb(159, 0, 255));
    assert_eq!(palette_color(1, max), rgb(255, 255, 255));
    assert_eq!(palette_color(2, max), rgb(0, 178, 51));
    assert_eq!(palette_color(3, max), rgb(255, 237, 0));
    assert_eq!(palette_color(4, max), rgb(255, 63, 49));
    assert_eq!(palette_color(5, max), rgb(0, 205, 255));
    // Counts 6 to 10 repeat the colors of 1 to 5.
    assert_eq!(palette_color(6, max), rgb(255, 255, 255));
    assert_eq!(palette_color(7, max), rgb(0, 178, 51));
    assert_eq!(palette_color(8, max), rgb(255, 237, 0));
    assert_eq!(palette_color(9, max), rgb(255, 63, 49));
    assert_eq!(palette_color(10, max), rgb(0, 205, 255));
    // The band from 11 up to the cap is white.
    assert_eq!(palette_color(11, max), rgb(255, 255, 255));
    assert_eq!(palette_color(128, max), rgb(255, 255, 255));
    assert_eq!(palette_color(254, max), rgb(255, 255, 255));
    // The cap itself is the in-set color.
    assert_eq!(palette_color(255, max), rgb(0, 178, 51));
}

#[test]
fn palette_cap_wins_over_buckets() {
    assert_eq!(palette_color(10, 10), rgb(0, 178, 51));
    assert_eq!(palette_color(9, 10), rgb(255, 63, 49));
}

#[test]
fn continuous_policy_scales_count_into_hue() {
    // With the scale 5400 / 255, count 17 lands exactly on one full turn,
    // so it colors like hue zero: pure red.
    assert_eq!(continuous_color(17, 5400, 255), rgb(255, 0, 0));
    assert_eq!(continuous_color(0, 5400, 255), rgb(255, 0, 0));
    // Count 2 gives hue 42: in the first sector, between red and yellow.
    assert_eq!(continuous_color(2, 5400, 255), hsl_to_rgb(42, 100, 50));
}
