//! Color classification for the clock-face timeline: mapping a probe outcome
//! to a color, and fading a slot's color toward gray as its result ages.

use vstd::prelude::*;

verus! {

/// Age (milliseconds) up to which a slot keeps its full color.
pub const AGE_FULL_COLOR_MS: u64 = 35_000;
/// Age (milliseconds) from which a slot is shown as plain gray.
pub const AGE_GRAY_MS: u64 = 55_000;
/// Width of the fade interval, `AGE_GRAY_MS - AGE_FULL_COLOR_MS`.
pub const FADE_RANGE_MS: u64 = 20_000;

/// An RGB triple: the plain-value form of a color handed to the rendering
/// collaborator.
#[derive(Clone, Copy, Debug, PartialEq, Eq, Structural)]
pub struct Rgb {
    pub r: u8,
    pub g: u8,
    pub b: u8,
}

/// Classification of one timeline slot.
#[derive(Clone, Copy, Debug, PartialEq, Eq, Structural)]
pub enum CircleColor {
    Gray,
    Green,
    Yellow,
    Orange,
    Red,
}

/// The base RGB value of each classification.
pub open spec fn rgb_of(c: CircleColor) -> Rgb {
    match c {
        CircleColor::Gray => Rgb { r: 160, g: 160, b: 160 },
        CircleColor::Green => Rgb { r: 0, g: 255, b: 0 },
        CircleColor::Yellow => Rgb { r: 255, g: 255, b: 0 },
        CircleColor::Orange => Rgb { r: 255, g: 165, b: 0 },
        CircleColor::Red => Rgb { r: 255, g: 0, b: 0 },
    }
}

/// Color for a probe outcome: failure is red; a success is green, yellow or
/// orange by where its latency falls against the two thresholds.
pub open spec fn classify_spec(response_time_ms: Option<u64>, green: u64, yellow: u64) -> CircleColor {
    match response_time_ms {
        Option::Some(t) => if t < green {
            CircleColor::Green
        } else if t < yellow {
            CircleColor::Yellow
        } else {
            CircleColor::Orange
        },
        Option::None => CircleColor::Red,
    }
}

/// How much of the base color remains at a given age, as a fraction
/// `fade_weight / FADE_RANGE_MS`: full up to 35 s, none from 55 s on,
/// linear in between.
pub open spec fn fade_weight(elapsed_ms: u64) -> int {
    if elapsed_ms <= AGE_FULL_COLOR_MS {
        FADE_RANGE_MS as int
    } else if elapsed_ms >= AGE_GRAY_MS {
        0
    } else {
        AGE_GRAY_MS - elapsed_ms
    }
}

/// Linear interpolation of one channel between `base` (weight `w`) and
/// `gray` (weight `FADE_RANGE_MS - w`), rounded down.
pub open spec fn blend_channel_spec(base: u8, gray: u8, w: int) -> int {
    (base * w + gray * (FADE_RANGE_MS - w)) / (FADE_RANGE_MS as int)
}

/// The displayed color of a slot whose base color is `c` and whose last
/// result is `elapsed_ms` old.
pub open spec fn aged_rgb(c: CircleColor, elapsed_ms: u64) -> Rgb {
    let base = rgb_of(c);
    let gray = rgb_of(CircleColor::Gray);
    let w = fade_weight(elapsed_ms);
    Rgb {
        r: blend_channel_spec(base.r, gray.r, w) as u8,
        g: blend_channel_spec(base.g, gray.g, w) as u8,
        b: blend_channel_spec(base.b, gray.b, w) as u8,
    }
}

/// A blended channel stays within the range spanned by its endpoints.
proof fn lemma_blend_channel_in_range(base: u8, gray: u8, w: int)
    requires
        0 <= w <= FADE_RANGE_MS,
    ensures
        0 <= blend_channel_spec(base, gray, w) <= 255,
{
    let d = FADE_RANGE_MS as int;
    vstd::arithmetic::mul::lemma_mul_inequality(base as int, 255, w);
    vstd::arithmetic::mul::lemma_mul_inequality(gray as int, 255, d - w);
    assert(base * w + gray * (d - w) <= 255 * w + 255 * (d - w));
    vstd::arithmetic::div_mod::lemma_div_is_ordered(base * w + gray * (d - w), 255 * d, d);
    vstd::arithmetic::div_mod::lemma_div_multiples_vanish(255, d);
    vstd::arithmetic::div_mod::lemma_div_pos_is_pos(base * w + gray * (d - w), d);
    vstd::arithmetic::mul::lemma_mul_nonnegative(base as int, w);
    vstd::arithmetic::mul::lemma_mul_nonnegative(gray as int, d - w);
}

/// Interpolate one color channel toward gray; weight `w` out of
/// `FADE_RANGE_MS` goes to `base`, the rest to `gray`.
fn blend_channel(base: u8, gray: u8, w: u64) -> (c: u8)
    requires
        w <= FADE_RANGE_MS,
    ensures
        c == blend_channel_spec(base, gray, w as int),
{
    proof {
        lemma_blend_channel_in_range(base, gray, w as int);
    }
    let num: u64 = (base as u64) * w + (gray as u64) * (FADE_RANGE_MS - w);
    (num / FADE_RANGE_MS) as u8
}

impl CircleColor {
    /// The base RGB value of this classification.
    pub fn to_rgb(self) -> (c: Rgb)
        ensures
            c == rgb_of(self),
    {
        match self {
            CircleColor::Gray => Rgb { r: 160, g: 160, b: 160 },
            CircleColor::Green => Rgb { r: 0, g: 255, b: 0 },
            CircleColor::Yellow => Rgb { r: 255, g: 255, b: 0 },
            CircleColor::Orange => Rgb { r: 255, g: 165, b: 0 },
            CircleColor::Red => Rgb { r: 255, g: 0, b: 0 },
        }
    }

    /// The RGB value of this classification once its result is
    /// `elapsed_ms` old: unchanged up to 35 s, gray from 55 s on, and
    /// linearly faded toward gray in between.
    pub fn to_rgb_with_age(self, elapsed_ms: u64) -> (c: Rgb)
        ensures
            c == aged_rgb(self, elapsed_ms),
    {
        if elapsed_ms >= AGE_GRAY_MS {
            proof {
                lemma_blend_full_weight(rgb_of(self).r, 160, 0);
                lemma_blend_full_weight(rgb_of(self).g, 160, 0);
                lemma_blend_full_weight(rgb_of(self).b, 160, 0);
            }
            return Rgb { r: 160, g: 160, b: 160 };
        }
        let base = self.to_rgb();
        if elapsed_ms <= AGE_FULL_COLOR_MS {
            proof {
                lemma_blend_full_weight(base.r, 160, FADE_RANGE_MS as int);
                lemma_blend_full_weight(base.g, 160, FADE_RANGE_MS as int);
                lemma_blend_full_weight(base.b, 160, FADE_RANGE_MS as int);
            }
            return base;
        }
        let w: u64 = AGE_GRAY_MS - elapsed_ms;
        Rgb {
            r: blend_channel(base.r, 160, w),
            g: blend_channel(base.g, 160, w),
            b: blend_channel(base.b, 160, w),
        }
    }

    /// Classification of a probe outcome against the two latency
    /// thresholds: no response is red; otherwise green below `green_threshold`,
    /// yellow below `yellow_threshold`, orange from there on.
    pub fn from_ping_response(
        response_time_ms: Option<u64>,
        green_threshold: u64,
        yellow_threshold: u64,
    ) -> (c: Self)
        ensures
            c == classify_spec(response_time_ms, green_threshold, yellow_threshold),
    {
        match response_time_ms {
            Option::Some(time) => {
                if time < green_threshold {
                    CircleColor::Green
                } else if time < yellow_threshold {
                    CircleColor::Yellow
                } else {
                    CircleColor::Orange
                }
            },
            Option::None => CircleColor::Red,
        }
    }
}

/// How far one channel value lies from another.
pub open spec fn channel_distance(a: int, b: int) -> int {
    if a >= b {
        a - b
    } else {
        b - a
    }
}

/// How far a color lies from plain gray, summed over the three channels.
pub open spec fn gray_distance(c: Rgb) -> int {
    channel_distance(c.r as int, 160) + channel_distance(c.g as int, 160) + channel_distance(
        c.b as int,
        160,
    )
}

/// A channel blended with less of its base color lies no farther from gray.
proof fn lemma_blend_channel_monotone(base: u8, w1: int, w2: int)
    requires
        0 <= w1 <= w2 <= FADE_RANGE_MS,
    ensures
        channel_distance(blend_channel_spec(base, 160, w1), 160) <= channel_distance(
            blend_channel_spec(base, 160, w2),
            160,
        ),
{
    let d = FADE_RANGE_MS as int;
    let n1 = base * w1 + 160 * (d - w1);
    let n2 = base * w2 + 160 * (d - w2);
    vstd::arithmetic::mul::lemma_mul_is_distributive_add(base as int, w1, w2 - w1);
    assert(base * w2 == base * w1 + base * (w2 - w1));
    vstd::arithmetic::div_mod::lemma_div_multiples_vanish(160, d);
    lemma_blend_channel_in_range(base, 160, w1);
    lemma_blend_channel_in_range(base, 160, w2);
    if base >= 160 {
        vstd::arithmetic::mul::lemma_mul_inequality(160, base as int, w2 - w1);
        assert(n1 <= n2);
        vstd::arithmetic::mul::lemma_mul_inequality(160, base as int, w1);
        assert(160 * d <= n1);
        vstd::arithmetic::div_mod::lemma_div_is_ordered(160 * d, n1, d);
        vstd::arithmetic::div_mod::lemma_div_is_ordered(n1, n2, d);
        assert(160 <= n1 / d);
    } else {
        vstd::arithmetic::mul::lemma_mul_inequality(base as int, 160, w2 - w1);
        assert(n2 <= n1);
        vstd::arithmetic::mul::lemma_mul_inequality(base as int, 160, w2);
        assert(n2 <= 160 * d);
        vstd::arithmetic::div_mod::lemma_div_is_ordered(n2, 160 * d, d);
        vstd::arithmetic::div_mod::lemma_div_is_ordered(n2, n1, d);
        assert(n1 / d <= 160) by {
            vstd::arithmetic::mul::lemma_mul_inequality(base as int, 160, w1);
            vstd::arithmetic::div_mod::lemma_div_is_ordered(n1, 160 * d, d);
        }
    }
}

/// Up to 35 seconds of age a slot keeps its base color unchanged; from 55
/// seconds on it is shown as plain gray.
pub proof fn lemma_fade_endpoints(c: CircleColor, elapsed_ms: u64)
    ensures
        elapsed_ms <= AGE_FULL_COLOR_MS ==> aged_rgb(c, elapsed_ms) == rgb_of(c),
        elapsed_ms >= AGE_GRAY_MS ==> aged_rgb(c, elapsed_ms) == rgb_of(CircleColor::Gray),
{
    let base = rgb_of(c);
    if elapsed_ms <= AGE_FULL_COLOR_MS {
        lemma_blend_full_weight(base.r, 160, FADE_RANGE_MS as int);
        lemma_blend_full_weight(base.g, 160, FADE_RANGE_MS as int);
        lemma_blend_full_weight(base.b, 160, FADE_RANGE_MS as int);
    }
    if elapsed_ms >= AGE_GRAY_MS {
        lemma_blend_full_weight(base.r, 160, 0);
        lemma_blend_full_weight(base.g, 160, 0);
        lemma_blend_full_weight(base.b, 160, 0);
    }
}

/// The fade is monotonic: as a slot's result ages, its displayed color
/// never moves away from gray.
pub proof fn lemma_fade_monotone(c: CircleColor, e1: u64, e2: u64)
    requires
        e1 <= e2,
    ensures
        gray_distance(aged_rgb(c, e2)) <= gray_distance(aged_rgb(c, e1)),
{
    let base = rgb_of(c);
    let w1 = fade_weight(e2);
    let w2 = fade_weight(e1);
    assert(0 <= w1 <= w2 <= FADE_RANGE_MS);
    lemma_blend_channel_in_range(base.r, 160, w1);
    lemma_blend_channel_in_range(base.g, 160, w1);
    lemma_blend_channel_in_range(base.b, 160, w1);
    lemma_blend_channel_in_range(base.r, 160, w2);
    lemma_blend_channel_in_range(base.g, 160, w2);
    lemma_blend_channel_in_range(base.b, 160, w2);
    lemma_blend_channel_monotone(base.r, w1, w2);
    lemma_blend_channel_monotone(base.g, w1, w2);
    lemma_blend_channel_monotone(base.b, w1, w2);
}

/// At the endpoints of the fade interval the blend returns an endpoint
/// exactly: all the weight on `base` gives `base`, none gives `gray`.
proof fn lemma_blend_full_weight(base: u8, gray: u8, w: int)
    requires
        w == 0 || w == FADE_RANGE_MS,
    ensures
        w == FADE_RANGE_MS ==> blend_channel_spec(base, gray, w) == base,
        w == 0 ==> blend_channel_spec(base, gray, w) == gray,
{
    let d = FADE_RANGE_MS as int;
    if w == d {
        assert(base * d + gray * (d - d) == d * (base as int)) by {
            vstd::arithmetic::mul::lemma_mul_is_commutative(base as int, d);
        }
        vstd::arithmetic::div_mod::lemma_div_multiples_vanish(base as int, d);
    } else {
        assert(base * 0 + gray * (d - 0) == d * (gray as int)) by {
            vstd::arithmetic::mul::lemma_mul_is_commutative(gray as int, d);
        }
        vstd::arithmetic::div_mod::lemma_div_multiples_vanish(gray as int, d);
    }
}

} // verus!
