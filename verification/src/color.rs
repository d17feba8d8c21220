use vstd::prelude::*;
use vstd::string::StrSliceExecFns;

verus! {

/// One displayed color, as 8-bit RGB channels.
#[derive(Clone, Copy, PartialEq, Eq, Structural, Debug)]
pub struct Rgb {
    pub r: u8,
    pub g: u8,
    pub b: u8,
}

/// The closed set of color-generation strategies selectable at runtime.
#[derive(Clone, Copy, PartialEq, Eq, Structural, Debug)]
pub enum ColorScheme {
    Green,
    Blue,
    Red,
    Purple,
    Cyan,
    Rainbow,
}

/// All color arithmetic is fixed-point with a per-mille scale: a fraction
/// in [0, 1] is carried as an integer in [0, 1000].
pub open spec fn hsv_f(h: int) -> int {
    (h * 6) % 1000
}

pub open spec fn hsv_sector(h: int) -> int {
    (h * 6) / 1000
}

/// Scale a per-mille fraction into an 8-bit channel.
pub open spec fn channel_of(frac: int, max: int) -> int {
    max * frac / 1000
}

/// The standard six-sector HSV to RGB conversion, with hue, saturation and
/// value given per-mille; the result channels are in [0, 255].
pub open spec fn spec_hsv_to_rgb(h: int, s: int, v: int) -> (int, int, int) {
    let f = hsv_f(h);
    let p = v * (1000 - s) / 1000;
    let q = v * (1000 - f * s / 1000) / 1000;
    let t = v * (1000 - (1000 - f) * s / 1000) / 1000;
    let sector = hsv_sector(h);
    let rgb = if sector == 0 {
        (v, t, p)
    } else if sector == 1 {
        (q, v, p)
    } else if sector == 2 {
        (p, v, t)
    } else if sector == 3 {
        (p, q, v)
    } else if sector == 4 {
        (t, p, v)
    } else {
        (v, p, q)
    };
    (channel_of(rgb.0, 255), channel_of(rgb.1, 255), channel_of(rgb.2, 255))
}

proof fn lemma_div_le(x: int, y: int, d: int)
    requires
        0 <= x <= y,
        0 < d,
    ensures
        x / d <= y / d,
        0 <= x / d,
        y / d <= y,
{
    vstd::arithmetic::div_mod::lemma_div_is_ordered(x, y, d);
    vstd::arithmetic::div_mod::lemma_div_nonincreasing(y, d);
    vstd::arithmetic::div_mod::lemma_div_pos_is_pos(x, d);
}

/// Scaling a per-mille fraction never leaves [0, max].
proof fn lemma_channel_bounds(frac: int, max: int)
    requires
        0 <= frac <= 1000,
        0 <= max,
    ensures
        0 <= channel_of(frac, max) <= max,
{
    assert(max * frac <= max * 1000) by (nonlinear_arith)
        requires 0 <= frac <= 1000 && 0 <= max;
    assert(0 <= max * frac) by (nonlinear_arith)
        requires 0 <= frac && 0 <= max;
    lemma_div_le(max * frac, max * 1000, 1000);
    assert(max * 1000 / 1000 == max) by (nonlinear_arith);
}

fn channel(frac: u32, max: u32) -> (c: u8)
    requires
        frac <= 1000,
        max <= 255,
    ensures
        c == channel_of(frac as int, max as int),
{
    proof {
        assert((max as int) * (frac as int) <= 255000) by (nonlinear_arith)
            requires frac <= 1000 && max <= 255;
        lemma_channel_bounds(frac as int, max as int);
    }
    (max * frac / 1000) as u8
}

/// Multiply two per-mille fractions, staying per-mille.
fn permille_mul(a: u32, b: u32) -> (r: u32)
    requires
        a <= 1000,
        b <= 1000,
    ensures
        r == (a as int) * (b as int) / 1000,
        r <= 1000,
{
    proof {
        assert((a as int) * (b as int) <= 1000000) by (nonlinear_arith)
            requires a <= 1000 && b <= 1000;
        assert(0 <= (a as int) * (b as int)) by (nonlinear_arith)
            requires 0 <= a && 0 <= b;
        lemma_div_le((a as int) * (b as int), 1000000int, 1000);
        assert(1000000int / 1000 == 1000);
    }
    a * b / 1000
}

/// The executable HSV to RGB conversion; agrees exactly with
/// `spec_hsv_to_rgb` on every admitted input.
pub fn hsv_to_rgb(h: u32, s: u32, v: u32) -> (rgb: (u8, u8, u8))
    requires
        h < 1000,
        s <= 1000,
        v <= 1000,
    ensures
        (rgb.0 as int, rgb.1 as int, rgb.2 as int) == spec_hsv_to_rgb(h as int, s as int, v as int),
{
    let f = (h * 6) % 1000;
    let p = permille_mul(v, 1000 - s);
    let q = permille_mul(v, 1000 - permille_mul(f, s));
    let t = permille_mul(v, 1000 - permille_mul(1000 - f, s));
    let sector = (h * 6) / 1000;
    let (r, g, b) = if sector == 0 {
        (v, t, p)
    } else if sector == 1 {
        (q, v, p)
    } else if sector == 2 {
        (p, v, t)
    } else if sector == 3 {
        (p, q, v)
    } else if sector == 4 {
        (t, p, v)
    } else {
        (v, p, q)
    };
    (channel(r, 255), channel(g, 255), channel(b, 255))
}

/// The fade factor per-mille: 0 at the head of a drop, approaching 1000 at
/// its tail.
pub open spec fn fade_permille(i: int, len: int) -> int {
    1000 * i / len
}

/// An intensity that decays with the fade factor, scaled by `scale`
/// per-mille and floored at `floor_v` per-mille.
pub open spec fn dim_permille(i: int, len: int, scale: int, floor_v: int) -> int {
    let d = scale * i / len;
    if 1000 - d < floor_v {
        floor_v
    } else {
        1000 - d
    }
}

/// The color of the cell `i` positions behind the head of a drop of length
/// `len` in column `x`, as a triple of channels in [0, 255].
pub open spec fn spec_color_of(scheme: ColorScheme, i: int, len: int, x: int) -> (int, int, int) {
    match scheme {
        ColorScheme::Green => if i == 0 {
            (200, 255, 200)
        } else if i == 1 {
            (100, 255, 100)
        } else {
            let inten = dim_permille(i, len, 850, 150);
            (channel_of(1000 - fade_permille(i, len), 30), channel_of(inten, 255), 0)
        },
        ColorScheme::Blue => if i == 0 {
            (200, 220, 255)
        } else if i == 1 {
            (100, 150, 255)
        } else {
            let inten = dim_permille(i, len, 850, 150);
            (0, channel_of(inten, 100), channel_of(inten, 255))
        },
        ColorScheme::Red => if i == 0 {
            (255, 220, 200)
        } else if i == 1 {
            (255, 100, 100)
        } else {
            let inten = dim_permille(i, len, 850, 150);
            (channel_of(inten, 255), channel_of(1000 - fade_permille(i, len), 30), 0)
        },
        ColorScheme::Purple => if i == 0 {
            (240, 200, 255)
        } else if i == 1 {
            (200, 100, 255)
        } else {
            let inten = dim_permille(i, len, 850, 150);
            (channel_of(inten, 180), 0, channel_of(inten, 255))
        },
        ColorScheme::Cyan => if i == 0 {
            (200, 255, 255)
        } else if i == 1 {
            (100, 255, 255)
        } else {
            let inten = dim_permille(i, len, 850, 150);
            (0, channel_of(inten, 255), channel_of(inten, 255))
        },
        ColorScheme::Rainbow => if i == 0 {
            (255, 255, 255)
        } else {
            let hue = (x * 10 + i * 15) % 360;
            let h = hue * 1000 / 360;
            let v = dim_permille(i, len, 800, 200);
            spec_hsv_to_rgb(h, 1000, v)
        },
    }
}

/// A scaled fade `scale * i / len` stays within [0, scale].
proof fn lemma_scaled_frac_bounds(i: int, len: int, scale: int)
    requires
        0 <= i <= len,
        0 < len,
        0 <= scale,
    ensures
        0 <= scale * i / len <= scale,
{
    assert(scale * i <= scale * len) by (nonlinear_arith)
        requires 0 <= i <= len && 0 <= scale;
    assert(0 <= scale * i) by (nonlinear_arith)
        requires 0 <= i && 0 <= scale;
    vstd::arithmetic::div_mod::lemma_div_is_ordered(scale * i, scale * len, len);
    vstd::arithmetic::div_mod::lemma_div_multiples_vanish(scale, len);
    assert(scale * len == len * scale) by (nonlinear_arith);
    vstd::arithmetic::div_mod::lemma_div_pos_is_pos(scale * i, len);
}

proof fn lemma_dim_bounds(i: int, len: int, scale: int, floor_v: int)
    requires
        0 <= i <= len,
        0 < len,
        0 <= scale <= 1000,
        0 <= floor_v <= 1000,
    ensures
        floor_v <= dim_permille(i, len, scale, floor_v) <= 1000,
        0 <= dim_permille(i, len, scale, floor_v) <= 1000,
{
    lemma_scaled_frac_bounds(i, len, scale);
}

/// The decaying intensity is non-increasing in the index: a cell farther
/// from the head is never brighter. This is the fade law for every scheme;
/// for Rainbow it bounds the value channel fed to the HSV conversion.
pub proof fn lemma_dim_monotone(i: int, j: int, len: int, scale: int, floor_v: int)
    requires
        0 <= i <= j <= len,
        0 < len,
        0 <= scale,
        0 <= floor_v,
    ensures
        dim_permille(j, len, scale, floor_v) <= dim_permille(i, len, scale, floor_v),
{
    assert(scale * i <= scale * j) by (nonlinear_arith)
        requires i <= j && 0 <= scale;
    assert(0 <= scale * i) by (nonlinear_arith)
        requires 0 <= i && 0 <= scale;
    vstd::arithmetic::div_mod::lemma_div_is_ordered(scale * i, scale * j, len);
}

/// Scaling into a channel preserves order between fractions.
proof fn lemma_channel_monotone(f1: int, f2: int, max: int)
    requires
        0 <= f1 <= f2,
        0 <= max,
    ensures
        channel_of(f1, max) <= channel_of(f2, max),
{
    assert(max * f1 <= max * f2) by (nonlinear_arith)
        requires f1 <= f2 && 0 <= max;
    vstd::arithmetic::div_mod::lemma_div_is_ordered(max * f1, max * f2, 1000);
}

/// The monotonic-fade law: past the two bright head cells, every channel of
/// a single-hue scheme is non-increasing as the index grows.
pub proof fn lemma_fade_monotone(scheme: ColorScheme, i: int, j: int, len: int, x: int)
    requires
        scheme != ColorScheme::Rainbow,
        2 <= i <= j < len,
    ensures
        spec_color_of(scheme, j, len, x).0 <= spec_color_of(scheme, i, len, x).0,
        spec_color_of(scheme, j, len, x).1 <= spec_color_of(scheme, i, len, x).1,
        spec_color_of(scheme, j, len, x).2 <= spec_color_of(scheme, i, len, x).2,
{
    lemma_dim_monotone(i, j, len, 850, 150);
    lemma_dim_bounds(i, len, 850, 150);
    lemma_dim_bounds(j, len, 850, 150);
    lemma_scaled_frac_bounds(i, len, 1000);
    lemma_scaled_frac_bounds(j, len, 1000);
    assert(1000 * i <= 1000 * j);
    vstd::arithmetic::div_mod::lemma_div_is_ordered(1000 * i, 1000 * j, len);
    let di = dim_permille(i, len, 850, 150);
    let dj = dim_permille(j, len, 850, 150);
    let gi = 1000 - fade_permille(i, len);
    let gj = 1000 - fade_permille(j, len);
    lemma_channel_monotone(dj, di, 255);
    lemma_channel_monotone(dj, di, 180);
    lemma_channel_monotone(dj, di, 100);
    lemma_channel_monotone(gj, gi, 30);
}

/// `a` reads as `b` when compared without regard to ASCII case, where `b`
/// is already lower case: either the same character, or its upper-case
/// counterpart.
pub open spec fn matches_lower(a: char, b: char) -> bool {
    a == b || (97 <= b as int <= 122 && 65 <= a as int <= 90 && a as int + 32 == b as int)
}

/// `s` spells `t` up to ASCII case, where `t` is already lower case.
pub open spec fn eq_ignore_case(s: Seq<char>, t: Seq<char>) -> bool {
    s.len() == t.len() && forall|i: int| 0 <= i < s.len() ==> matches_lower(s[i], t[i])
}

/// The scheme a name denotes, compared without regard to ASCII case;
/// unrecognized names denote nothing.
pub open spec fn spec_from_str(s: Seq<char>) -> Option<ColorScheme> {
    if eq_ignore_case(s, "green"@) {
        Some(ColorScheme::Green)
    } else if eq_ignore_case(s, "blue"@) {
        Some(ColorScheme::Blue)
    } else if eq_ignore_case(s, "red"@) {
        Some(ColorScheme::Red)
    } else if eq_ignore_case(s, "purple"@) {
        Some(ColorScheme::Purple)
    } else if eq_ignore_case(s, "cyan"@) {
        Some(ColorScheme::Cyan)
    } else if eq_ignore_case(s, "rainbow"@) {
        Some(ColorScheme::Rainbow)
    } else {
        None
    }
}

/// Whether `s` spells the lower-case name `t` up to ASCII case.
fn name_matches(s: &str, t: &str) -> (r: bool)
    ensures
        r == eq_ignore_case(s@, t@),
{
    let n = s.unicode_len();
    if n != t.unicode_len() {
        return false;
    }
    let mut i: usize = 0;
    while i < n
        invariant
            n == s@.len(),
            n == t@.len(),
            i <= n,
            forall|k: int| 0 <= k < i ==> matches_lower(s@[k], t@[k]),
        decreases n - i,
    {
        let a = s.get_char(i);
        let b = t.get_char(i);
        let au = a as u32;
        let bu = b as u32;
        let ok = a == b || (97 <= bu && bu <= 122 && 65 <= au && au <= 90 && au + 32 == bu);
        if !ok {
            proof {
                assert(!matches_lower(s@[i as int], t@[i as int]));
            }
            return false;
        }
        i += 1;
    }
    true
}

impl ColorScheme {
    /// The scheme named `s` (green, blue, red, purple, cyan or rainbow),
    /// case-insensitively; `None` for any other name.
    pub fn from_str(s: &str) -> (r: Option<ColorScheme>)
        ensures
            r == spec_from_str(s@),
    {
        if name_matches(s, "green") {
            Some(ColorScheme::Green)
        } else if name_matches(s, "blue") {
            Some(ColorScheme::Blue)
        } else if name_matches(s, "red") {
            Some(ColorScheme::Red)
        } else if name_matches(s, "purple") {
            Some(ColorScheme::Purple)
        } else if name_matches(s, "cyan") {
            Some(ColorScheme::Cyan)
        } else if name_matches(s, "rainbow") {
            Some(ColorScheme::Rainbow)
        } else {
            None
        }
    }

    /// The color of the cell `i` positions behind the head of a drop of
    /// length `length` in column `x`.
    pub fn get_colors(&self, i: usize, length: usize, x: u16) -> (c: Rgb)
        requires
            1 <= length <= 1000000,
            i < length,
        ensures
            (c.r as int, c.g as int, c.b as int) == spec_color_of(*self, i as int, length as int, x as int),
    {
        let il = i as u64;
        let ll = length as u64;
        proof {
            lemma_scaled_frac_bounds(i as int, length as int, 1000);
            lemma_scaled_frac_bounds(i as int, length as int, 850);
            lemma_scaled_frac_bounds(i as int, length as int, 800);
        }
        let fade = (1000 * il / ll) as u32;
        let d85 = (850 * il / ll) as u64;
        let inten: u32 = if 1000 - d85 < 150 { 150 } else { (1000 - d85) as u32 };
        match self {
            ColorScheme::Green => {
                if i == 0 {
                    Rgb { r: 200, g: 255, b: 200 }
                } else if i == 1 {
                    Rgb { r: 100, g: 255, b: 100 }
                } else {
                    Rgb { r: channel(1000 - fade, 30), g: channel(inten, 255), b: 0 }
                }
            },
            ColorScheme::Blue => {
                if i == 0 {
                    Rgb { r: 200, g: 220, b: 255 }
                } else if i == 1 {
                    Rgb { r: 100, g: 150, b: 255 }
                } else {
                    Rgb { r: 0, g: channel(inten, 100), b: channel(inten, 255) }
                }
            },
            ColorScheme::Red => {
                if i == 0 {
                    Rgb { r: 255, g: 220, b: 200 }
                } else if i == 1 {
                    Rgb { r: 255, g: 100, b: 100 }
                } else {
                    Rgb { r: channel(inten, 255), g: channel(1000 - fade, 30), b: 0 }
                }
            },
            ColorScheme::Purple => {
                if i == 0 {
                    Rgb { r: 240, g: 200, b: 255 }
                } else if i == 1 {
                    Rgb { r: 200, g: 100, b: 255 }
                } else {
                    Rgb { r: channel(inten, 180), g: 0, b: channel(inten, 255) }
                }
            },
            ColorScheme::Cyan => {
                if i == 0 {
                    Rgb { r: 200, g: 255, b: 255 }
                } else if i == 1 {
                    Rgb { r: 100, g: 255, b: 255 }
                } else {
                    Rgb { r: 0, g: channel(inten, 255), b: channel(inten, 255) }
                }
            },
            ColorScheme::Rainbow => {
                if i == 0 {
                    Rgb { r: 255, g: 255, b: 255 }
                } else {
                    let hue = ((x as u64) * 10 + il * 15) % 360;
                    let h = (hue * 1000 / 360) as u32;
                    proof {
                        vstd::arithmetic::div_mod::lemma_div_is_ordered(
                            (hue * 1000) as int, 359000int, 360);
                        vstd::arithmetic::div_mod::lemma_div_pos_is_pos((hue * 1000) as int, 360);
                        assert(359000int / 360 == 997);
                    }
                    let d80 = 800 * il / ll;
                    let v: u32 = if 1000 - d80 < 200 { 200 } else { (1000 - d80) as u32 };
                    let (r, g, b) = hsv_to_rgb(h, 1000, v);
                    Rgb { r, g, b }
                }
            },
        }
    }
}

} // verus!
