//! The colour ramp: blue for the lowest value of a frame, green for the
//! middle, red for the highest.
//!
//! A value is placed on the ramp by its ratio
//! `2 * (value - minimum) / (maximum - minimum)`, which runs from 0 to 2.
//! Blue is `255 * (1 - ratio)` and red is `255 * (ratio - 1)`, each rounded
//! down and limited to `0..=255`; green is what is left of 255. All of it is
//! computed in integers, so no rounding error enters.
use vstd::arithmetic::div_mod::lemma_div_is_ordered;
use vstd::prelude::*;

verus! {

/// Offset added to every channel so that no colour comes out too dark.
pub const SOFT_SCALE: u8 = 125;

/// Limits `x` to the range of a colour channel.
pub open spec fn clamp_channel(x: int) -> int {
    if x < 0 {
        0
    } else if x > 255 {
        255
    } else {
        x
    }
}

/// Blue before brightening, `255 * (1 - ratio)`: 255 at `minimum`, falling
/// linearly to 0 at the middle of the range and staying there.
pub open spec fn ramp_down(minimum: int, maximum: int, value: int) -> int
    recommends
        minimum < maximum,
{
    clamp_channel(255 * (minimum + maximum - 2 * value) / (maximum - minimum))
}

/// Red before brightening, `255 * (ratio - 1)`: 0 up to the middle of the
/// range, then rising linearly to 255 at `maximum`.
pub open spec fn ramp_up(minimum: int, maximum: int, value: int) -> int
    recommends
        minimum < maximum,
{
    clamp_channel(255 * (2 * value - minimum - maximum) / (maximum - minimum))
}

/// Adds the brightening offset to a channel, saturating at 255.
pub open spec fn soften(channel: int) -> int {
    if channel + SOFT_SCALE > 255 {
        255
    } else {
        channel + SOFT_SCALE
    }
}

/// The colour `(red, green, blue)` of `value` on the ramp from `minimum` to
/// `maximum`. A range without spread has one flat colour.
pub open spec fn rgb_of(minimum: int, maximum: int, value: int) -> (int, int, int)
    recommends
        minimum <= maximum,
{
    if minimum == maximum {
        (SOFT_SCALE as int, SOFT_SCALE as int, 255)
    } else {
        let blue = ramp_down(minimum, maximum, value);
        let red = ramp_up(minimum, maximum, value);
        (soften(red), soften(255 - blue - red), soften(blue))
    }
}

/// One half of the ramp: `255 * numerator / span`, limited to `0..=255`.
fn ramp(numerator: i128, span: i128) -> (c: u8)
    requires
        0 < span < 0x1_0000_0000_0000_0000,
        -0x2_0000_0000_0000_0000 <= numerator <= 0x2_0000_0000_0000_0000,
    ensures
        c == clamp_channel(255 * numerator / (span as int)),
{
    if numerator <= 0 {
        assert(255 * numerator / (span as int) <= 0) by (nonlinear_arith)
            requires
                numerator <= 0,
                span > 0,
        ;
        0
    } else {
        let scaled: u128 = 255 * (numerator as u128);
        let q: u128 = scaled / (span as u128);
        assert(255 * numerator / (span as int) >= 0) by (nonlinear_arith)
            requires
                numerator > 0,
                span > 0,
        ;
        if q > 255 {
            255
        } else {
            q as u8
        }
    }
}

/// Adds the brightening offset to a channel, saturating at 255.
fn lighten(channel: u8) -> (c: u8)
    ensures
        c == soften(channel as int),
{
    if channel > 255 - SOFT_SCALE {
        255
    } else {
        channel + SOFT_SCALE
    }
}

/// Computes the colour of `value` on the ramp from `minimum` to `maximum`.
pub fn gradient(minimum: i64, maximum: i64, value: i64) -> (c: (u8, u8, u8))
    requires
        minimum <= maximum,
    ensures
        (c.0 as int, c.1 as int, c.2 as int) == rgb_of(minimum as int, maximum as int, value as int),
{
    if minimum == maximum {
        return (SOFT_SCALE, SOFT_SCALE, 255);
    }
    let span: i128 = maximum as i128 - minimum as i128;
    let falling: i128 = minimum as i128 + maximum as i128 - 2 * (value as i128);
    let blue = ramp(falling, span);
    let red = ramp(-falling, span);
    proof {
        lemma_one_half_dark(minimum as int, maximum as int, value as int);
    }
    let green = 255 - blue - red;
    (lighten(red), lighten(green), lighten(blue))
}

/// At most one of blue and red is lit, so green stays within a channel.
pub proof fn lemma_one_half_dark(minimum: int, maximum: int, value: int)
    requires
        minimum < maximum,
    ensures
        ramp_down(minimum, maximum, value) == 0 || ramp_up(minimum, maximum, value) == 0,
        0 <= 255 - ramp_down(minimum, maximum, value) - ramp_up(minimum, maximum, value) <= 255,
{
    let n = minimum + maximum - 2 * value;
    let span = maximum - minimum;
    if n >= 0 {
        assert(255 * (-n) / span <= 0) by (nonlinear_arith)
            requires
                n >= 0,
                span > 0,
        ;
    } else {
        assert(255 * n / span <= 0) by (nonlinear_arith)
            requires
                n < 0,
                span > 0,
        ;
    }
}

/// A range without spread maps every value to the same flat colour.
pub proof fn lemma_flat_range(minimum: int, value: int)
    ensures
        rgb_of(minimum, minimum, value) == (SOFT_SCALE as int, SOFT_SCALE as int, 255int),
{
}

/// The two ends of a range are opposites on the red and blue channels: the
/// lowest value is as blue as the highest is red, and both are equally green.
pub proof fn lemma_ends_are_opposites(minimum: int, maximum: int)
    requires
        minimum < maximum,
    ensures
        rgb_of(minimum, maximum, minimum) == (SOFT_SCALE as int, SOFT_SCALE as int, 255int),
        rgb_of(minimum, maximum, maximum) == (255int, SOFT_SCALE as int, SOFT_SCALE as int),
        rgb_of(minimum, maximum, minimum).0 == rgb_of(minimum, maximum, maximum).2,
        rgb_of(minimum, maximum, minimum).2 == rgb_of(minimum, maximum, maximum).0,
        rgb_of(minimum, maximum, minimum).1 == rgb_of(minimum, maximum, maximum).1,
{
    let span = maximum - minimum;
    assert(255 * span / span == 255) by (nonlinear_arith)
        requires
            span > 0,
    ;
    assert(255 * (-span) / span == -255) by (nonlinear_arith)
        requires
            span > 0,
    ;
}

/// Mirroring a value about the middle of the range swaps red and blue and
/// keeps green.
pub proof fn lemma_mirror_swaps_red_and_blue(minimum: int, maximum: int, value: int)
    requires
        minimum < maximum,
    ensures
        rgb_of(minimum, maximum, minimum + maximum - value).0 == rgb_of(minimum, maximum, value).2,
        rgb_of(minimum, maximum, minimum + maximum - value).1 == rgb_of(minimum, maximum, value).1,
        rgb_of(minimum, maximum, minimum + maximum - value).2 == rgb_of(minimum, maximum, value).0,
{
}

/// A higher value is never less red and never more blue.
pub proof fn lemma_higher_is_redder(minimum: int, maximum: int, lower: int, higher: int)
    requires
        minimum < maximum,
        lower <= higher,
    ensures
        rgb_of(minimum, maximum, lower).0 <= rgb_of(minimum, maximum, higher).0,
        rgb_of(minimum, maximum, lower).2 >= rgb_of(minimum, maximum, higher).2,
{
    let span = maximum - minimum;
    lemma_div_is_ordered(
        255 * (2 * lower - minimum - maximum),
        255 * (2 * higher - minimum - maximum),
        span,
    );
    lemma_div_is_ordered(
        255 * (minimum + maximum - 2 * higher),
        255 * (minimum + maximum - 2 * lower),
        span,
    );
}

/// Every channel of a colour on the ramp lies between the brightening offset
/// and 255.
pub proof fn lemma_channels_in_range(minimum: int, maximum: int, value: int)
    requires
        minimum <= maximum,
    ensures
        SOFT_SCALE <= rgb_of(minimum, maximum, value).0 <= 255,
        SOFT_SCALE <= rgb_of(minimum, maximum, value).1 <= 255,
        SOFT_SCALE <= rgb_of(minimum, maximum, value).2 <= 255,
{
    if minimum < maximum {
        lemma_one_half_dark(minimum, maximum, value);
    }
}

} // verus!
