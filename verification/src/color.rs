//! Mapping of iteration counts to RGB colors.
//!
//! Two policies: a discrete palette with fixed buckets, and a continuous
//! hue rotation through the HSL color model. The HSL conversion is done in
//! exact integer arithmetic: saturation and lightness are percentages, the
//! two luminance terms `m1 <= m2` live in units of `1/10000`, and a hue turn
//! is split into `1080` units (three per degree), so every division in the
//! standard piecewise sector function has an exact integer form.

use vstd::prelude::*;

verus! {

/// An RGB triple, each channel in `[0, 255]`.
#[derive(Clone, Copy, PartialEq, Eq, Structural, Debug)]
pub struct ColorSpec {
    pub red: u8,
    pub green: u8,
    pub blue: u8,
}

/// Color of the discrete palette for iteration count `count` under cap
/// `max`: counts `0` to `10` have fixed bucket colors (`6` to `10` repeat
/// the colors of `1` to `5`), the band from `11` up to the cap is white, and
/// the cap itself — "in the set" — has its own color.
pub open spec fn spec_palette_color(count: int, max: int) -> ColorSpec {
    if count >= max {
        ColorSpec { red: 0, green: 178, blue: 51 }
    } else if count == 0 {
        ColorSpec { red: 159, green: 0, blue: 255 }
    } else if count == 1 || count == 6 {
        ColorSpec { red: 255, green: 255, blue: 255 }
    } else if count == 2 || count == 7 {
        ColorSpec { red: 0, green: 178, blue: 51 }
    } else if count == 3 || count == 8 {
        ColorSpec { red: 255, green: 237, blue: 0 }
    } else if count == 4 || count == 9 {
        ColorSpec { red: 255, green: 63, blue: 49 }
    } else if count == 5 || count == 10 {
        ColorSpec { red: 0, green: 205, blue: 255 }
    } else {
        ColorSpec { red: 255, green: 255, blue: 255 }
    }
}

/// Discrete palette policy.
pub fn palette_color(count: u32, max_iterations: u32) -> (c: ColorSpec)
    requires
        max_iterations >= 1,
        count <= max_iterations,
    ensures
        c == spec_palette_color(count as int, max_iterations as int),
{
    if count >= max_iterations {
        ColorSpec { red: 0, green: 178, blue: 51 }
    } else if count == 0 {
        ColorSpec { red: 159, green: 0, blue: 255 }
    } else if count == 1 || count == 6 {
        ColorSpec { red: 255, green: 255, blue: 255 }
    } else if count == 2 || count == 7 {
        ColorSpec { red: 0, green: 178, blue: 51 }
    } else if count == 3 || count == 8 {
        ColorSpec { red: 255, green: 237, blue: 0 }
    } else if count == 4 || count == 9 {
        ColorSpec { red: 255, green: 63, blue: 49 }
    } else if count == 5 || count == 10 {
        ColorSpec { red: 0, green: 205, blue: 255 }
    } else {
        ColorSpec { red: 255, green: 255, blue: 255 }
    }
}

/// The HSL sector function: interpolate from `m1` up to `m2` over the first
/// sixth of the hue circle, hold `m2` until half, interpolate back down
/// until two thirds, then hold `m1`. `hn` is a wrapped hue in `[0, 1080)`
/// units of a `1/1080` turn; the result is in `1/10000` units like `m1` and
/// `m2`.
pub open spec fn sector_value(m1: int, m2: int, hn: int) -> int {
    if hn < 180 {
        m1 + ((m2 - m1) * hn) / 180
    } else if hn < 540 {
        m2
    } else if hn < 720 {
        m1 + ((m2 - m1) * (720 - hn)) / 180
    } else {
        m1
    }
}

/// Upper luminance term, in `1/10000` units.
pub open spec fn spec_m2(s: int, l: int) -> int {
    if l <= 50 {
        l * (100 + s)
    } else {
        (l + s) * 100 - l * s
    }
}

/// Lower luminance term, in `1/10000` units.
pub open spec fn spec_m1(s: int, l: int) -> int {
    200 * l - spec_m2(s, l)
}

/// One channel of the HSL conversion as a byte value in `[0, 255]`:
/// the channel's hue sits `offset` units of `1/1080` turn away from the base
/// hue (`+360` for red, `0` for green, `-360` for blue).
pub open spec fn spec_channel(h: int, s: int, l: int, offset: int) -> int {
    if s == 0 {
        (l * 255) / 100
    } else {
        (sector_value(spec_m1(s, l), spec_m2(s, l), (3 * h + offset) % 1080) * 255) / 10000
    }
}

/// HSL to RGB: hue `h` in degrees (any integer; the conversion is periodic),
/// saturation `s` and lightness `l` in percent.
pub open spec fn spec_hsl_to_rgb(h: int, s: int, l: int) -> ColorSpec {
    ColorSpec {
        red: spec_channel(h, s, l, 360) as u8,
        green: spec_channel(h, s, l, 0) as u8,
        blue: spec_channel(h, s, l, -360) as u8,
    }
}

/// Color of the continuous hue-rotation policy: the count is scaled into a
/// hue angle by the factor `numer / denom` and converted from
/// `(hue, s = 100%, l = 50%)`.
pub open spec fn spec_continuous_color(count: int, numer: int, denom: int) -> ColorSpec {
    spec_hsl_to_rgb(((count * numer) / denom) % 360, 100, 50)
}

/// Product bound from per-factor bounds, for nonnegative factors.
proof fn lemma_mul_upper(a: int, b: int, ma: int, mb: int)
    by (nonlinear_arith)
    requires
        0 <= a <= ma,
        0 <= b <= mb,
    ensures
        0 <= a * b <= ma * mb,
{
}

/// Bounds of the two luminance terms: `0 <= m1 <= m2 <= 10000`, stated over
/// the raw products so the nonlinear solver sees them.
proof fn lemma_luminance_bounds(s: int, l: int)
    by (nonlinear_arith)
    requires
        0 <= s <= 100,
        0 <= l <= 100,
    ensures
        l <= 50 ==> 0 <= 200 * l - l * (100 + s) <= l * (100 + s) <= 10000,
        l > 50 ==> 0 <= 200 * l - ((l + s) * 100 - l * s) <= (l + s) * 100 - l * s <= 10000,
{
}

/// The sector function stays between its two luminance terms.
proof fn lemma_sector_in_range(m1: int, m2: int, hn: int)
    requires
        0 <= m1 <= m2,
        0 <= hn < 1080,
    ensures
        m1 <= sector_value(m1, m2, hn) <= m2,
{
    let d = m2 - m1;
    if hn < 180 {
        lemma_mul_upper(d, hn, d, 180);
        vstd::arithmetic::div_mod::lemma_div_pos_is_pos(d * hn, 180);
        vstd::arithmetic::div_mod::lemma_div_is_ordered(d * hn, d * 180, 180);
        vstd::arithmetic::div_mod::lemma_div_by_multiple(d, 180);
        assert(d * 180 == 180 * d) by (nonlinear_arith);
    } else if hn < 540 {
    } else if hn < 720 {
        lemma_mul_upper(d, 720 - hn, d, 180);
        vstd::arithmetic::div_mod::lemma_div_pos_is_pos(d * (720 - hn), 180);
        vstd::arithmetic::div_mod::lemma_div_is_ordered(d * (720 - hn), d * 180, 180);
        vstd::arithmetic::div_mod::lemma_div_by_multiple(d, 180);
        assert(d * 180 == 180 * d) by (nonlinear_arith);
    }
}

/// Every channel byte of the conversion lies in `[0, 255]`.
proof fn lemma_channel_in_range(h: int, s: int, l: int, offset: int)
    requires
        0 <= s <= 100,
        0 <= l <= 100,
    ensures
        0 <= spec_channel(h, s, l, offset) <= 255,
{
    if s == 0 {
        vstd::arithmetic::div_mod::lemma_div_pos_is_pos(l * 255, 100);
        vstd::arithmetic::div_mod::lemma_div_is_ordered(l * 255, 25500, 100);
    } else {
        let m1 = spec_m1(s, l);
        let m2 = spec_m2(s, l);
        let hn = (3 * h + offset) % 1080;
        lemma_luminance_bounds(s, l);
        vstd::arithmetic::div_mod::lemma_mod_bound(3 * h + offset, 1080);
        lemma_sector_in_range(m1, m2, hn);
        let v = sector_value(m1, m2, hn);
        lemma_mul_upper(v, 255, 10000, 255);
        vstd::arithmetic::div_mod::lemma_div_pos_is_pos(v * 255, 10000);
        vstd::arithmetic::div_mod::lemma_div_is_ordered(v * 255, 2550000, 10000);
    }
}

/// With saturation zero the conversion short-circuits to gray: every channel
/// is `l * 255 / 100`, whatever the hue.
pub proof fn lemma_hsl_saturation_zero_gray(h: int, l: int)
    requires
        0 <= l <= 100,
    ensures
        spec_hsl_to_rgb(h, 0, l) == (ColorSpec {
            red: ((l * 255) / 100) as u8,
            green: ((l * 255) / 100) as u8,
            blue: ((l * 255) / 100) as u8,
        }),
{
}

/// The conversion is periodic in hue with period 360 degrees.
pub proof fn lemma_hsl_periodic(h: int, s: int, l: int)
    ensures
        spec_hsl_to_rgb(h + 360, s, l) == spec_hsl_to_rgb(h, s, l),
{
    vstd::arithmetic::div_mod::lemma_mod_multiples_vanish(1, 3 * h + 360, 1080);
    assert(3 * (h + 360) + 360 == 1080 * 1 + (3 * h + 360));
    vstd::arithmetic::div_mod::lemma_mod_multiples_vanish(1, 3 * h, 1080);
    assert(3 * (h + 360) == 1080 * 1 + 3 * h);
    vstd::arithmetic::div_mod::lemma_mod_multiples_vanish(1, 3 * h - 360, 1080);
    assert(3 * (h + 360) + -360 == 1080 * 1 + (3 * h - 360));
}

/// One channel of the executable conversion; `hn` is the wrapped hue in
/// `[0, 1080)` and the luminance terms are in `1/10000` units.
fn channel_byte(m1: u32, m2: u32, hn: u32) -> (v: u8)
    requires
        m1 <= m2,
        m2 <= 10000,
        hn < 1080,
    ensures
        v == (sector_value(m1 as int, m2 as int, hn as int) * 255) / 10000,
{
    proof {
        lemma_sector_in_range(m1 as int, m2 as int, hn as int);
        lemma_mul_upper(m2 as int - m1 as int, hn as int, 10000, 1080);
        lemma_mul_upper(sector_value(m1 as int, m2 as int, hn as int), 255, 10000, 255);
        vstd::arithmetic::div_mod::lemma_div_pos_is_pos(
            (m2 as int - m1 as int) * (hn as int),
            180,
        );
        if 540 <= hn < 720 {
            lemma_mul_upper(m2 as int - m1 as int, 720 - hn as int, 10000, 180);
            vstd::arithmetic::div_mod::lemma_div_pos_is_pos(
                (m2 as int - m1 as int) * (720 - hn as int),
                180,
            );
        }
    }
    let sv: u32 = if hn < 180 {
        m1 + ((m2 - m1) * hn) / 180
    } else if hn < 540 {
        m2
    } else if hn < 720 {
        m1 + ((m2 - m1) * (720 - hn)) / 180
    } else {
        m1
    };
    ((sv * 255) / 10000) as u8
}

/// HSL to RGB in exact integer arithmetic: hue in degrees, saturation and
/// lightness in percent.
pub fn hsl_to_rgb(h: u32, s: u32, l: u32) -> (c: ColorSpec)
    requires
        s <= 100,
        l <= 100,
    ensures
        c == spec_hsl_to_rgb(h as int, s as int, l as int),
{
    proof {
        lemma_channel_in_range(h as int, s as int, l as int, 360);
        lemma_channel_in_range(h as int, s as int, l as int, 0);
        lemma_channel_in_range(h as int, s as int, l as int, -360);
    }
    if s == 0 {
        let g: u32 = (l * 255) / 100;
        ColorSpec { red: g as u8, green: g as u8, blue: g as u8 }
    } else {
        proof {
            lemma_luminance_bounds(s as int, l as int);
        }
        let m2: u32 = if l <= 50 {
            l * (100 + s)
        } else {
            (l + s) * 100 - l * s
        };
        let m1: u32 = 200 * l - m2;
        let h3: u64 = 3 * (h as u64);
        let hn_red: u32 = ((h3 + 360) % 1080) as u32;
        let hn_green: u32 = (h3 % 1080) as u32;
        let hn_blue: u32 = ((h3 + 720) % 1080) as u32;
        proof {
            // The blue channel sits a third of a turn below the base hue;
            // adding a whole turn keeps the executable value nonnegative.
            vstd::arithmetic::div_mod::lemma_mod_multiples_vanish(
                1,
                3 * (h as int) - 360,
                1080,
            );
            assert(3 * (h as int) + 720 == 1080 * 1 + (3 * (h as int) - 360));
            vstd::arithmetic::div_mod::lemma_mod_bound(3 * (h as int) + 360, 1080);
            vstd::arithmetic::div_mod::lemma_mod_bound(3 * (h as int), 1080);
            vstd::arithmetic::div_mod::lemma_mod_bound(3 * (h as int) + 720, 1080);
        }
        ColorSpec {
            red: channel_byte(m1, m2, hn_red),
            green: channel_byte(m1, m2, hn_green),
            blue: channel_byte(m1, m2, hn_blue),
        }
    }
}

/// Continuous hue-rotation policy: scale the count into a hue angle by
/// `hue_numer / hue_denom` and convert from full saturation, half lightness.
pub fn continuous_color(count: u32, hue_numer: u32, hue_denom: u32) -> (c: ColorSpec)
    requires
        hue_denom >= 1,
    ensures
        c == spec_continuous_color(count as int, hue_numer as int, hue_denom as int),
{
    proof {
        lemma_mul_upper(count as int, hue_numer as int, 0xffff_ffff, 0xffff_ffff);
        vstd::arithmetic::div_mod::lemma_div_pos_is_pos(
            (count as int) * (hue_numer as int),
            hue_denom as int,
        );
        vstd::arithmetic::div_mod::lemma_mod_bound(
            ((count as int) * (hue_numer as int)) / (hue_denom as int),
            360,
        );
    }
    let scaled: u64 = ((count as u64) * (hue_numer as u64)) / (hue_denom as u64);
    let hue: u32 = (scaled % 360) as u32;
    hsl_to_rgb(hue, 100, 50)
}

} // verus!
