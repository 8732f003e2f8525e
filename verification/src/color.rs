use vstd::prelude::*;
use vstd::arithmetic::div_mod::{lemma_div_is_ordered, lemma_div_pos_is_pos};

use crate::math::{lemma_mul_bounds, tdiv};
use crate::{NORM_BOUND, SCALE};

verus! {

/// An 8-bit RGB color.
#[derive(Clone, Copy, PartialEq, Eq, Structural, Debug)]
pub struct Color {
    pub r: u8,
    pub g: u8,
    pub b: u8,
}

impl Color {
    pub fn new(r: u8, g: u8, b: u8) -> (c: Color)
        ensures
            c.r == r && c.g == g && c.b == b,
    {
        Color { r, g, b }
    }
}

/// One channel of the normal-visualization shader: the object's channel
/// value scaled by (n + 1) / 2, where `n` is a fixed-point normal
/// component; rounded to the nearest 8-bit value and saturated at both
/// ends.  A normal component below -1 darkens the channel to 0; one above
/// +1 saturates it toward 255.
pub open spec fn shade_channel(c: int, n: int) -> int {
    let num = c * (n + SCALE);
    if num <= 0 {
        0
    } else {
        let q = (num + SCALE) / (2 * SCALE);
        if q > 255 {
            255
        } else {
            q
        }
    }
}

pub fn shade_channel_exec(c: u8, n: i128) -> (res: u8)
    requires
        -NORM_BOUND <= n <= NORM_BOUND,
    ensures
        res == shade_channel(c as int, n as int),
{
    proof {
        lemma_mul_bounds(
            c as int,
            n as int + SCALE,
            255,
            NORM_BOUND as int + SCALE as int,
        );
    }
    let num: i128 = (c as i128) * (n + SCALE);
    if num <= 0 {
        0
    } else {
        let q: i128 = (num + SCALE) / (2 * SCALE);
        proof {
            lemma_div_pos_is_pos(num as int + SCALE, 2 * SCALE as int);
        }
        if q > 255 {
            255
        } else {
            q as u8
        }
    }
}

/// One channel of the sky gradient: the convex combination
/// (1 - t) * white + t * sky at fixed-point blend parameter `t`,
/// rounded to the nearest 8-bit value.  `sky` is the sky color's channel
/// as a fraction of full brightness, in fixed-point.
pub open spec fn background_channel(t: int, sky: int) -> int {
    let a = (SCALE - t) * SCALE + t * sky;
    (510 * a + SCALE * SCALE) / (2 * SCALE * SCALE)
}

pub fn background_channel_exec(t: i128, sky: i128) -> (res: u8)
    requires
        0 <= t <= SCALE,
        0 <= sky <= SCALE,
    ensures
        res == background_channel(t as int, sky as int),
{
    proof {
        lemma_mul_bounds(SCALE as int - t, SCALE as int, SCALE as int, SCALE as int);
        lemma_mul_bounds(t as int, sky as int, SCALE as int, SCALE as int);
    }
    let a: i128 = (SCALE - t) * SCALE + t * sky;
    proof {
        lemma_background_value_in_unit(t as int, sky as int);
        lemma_div_pos_is_pos(510 * a as int + SCALE * SCALE, 2 * SCALE * SCALE);
        lemma_div_is_ordered(
            510 * a as int + SCALE * SCALE,
            511 * SCALE * SCALE,
            2 * SCALE * SCALE,
        );
        assert(511 * (SCALE * SCALE as int) / (2 * (SCALE * SCALE as int)) == 255)
            by (nonlinear_arith);
    }
    let res: i128 = (510 * a + SCALE * SCALE) / (2 * SCALE * SCALE);
    res as u8
}

/// Raising the blend parameter never brightens a channel: the gradient
/// moves monotonically from white toward the sky color.
pub proof fn lemma_background_channel_monotone(t1: int, t2: int, sky: int)
    requires
        0 <= t1 <= t2 <= SCALE,
        0 <= sky <= SCALE,
    ensures
        background_channel(t2, sky) <= background_channel(t1, sky),
{
    let a1 = (SCALE - t1) * SCALE + t1 * sky;
    let a2 = (SCALE - t2) * SCALE + t2 * sky;
    assert(a2 <= a1) by (nonlinear_arith)
        requires
            t1 <= t2,
            sky <= SCALE,
            a1 == (SCALE - t1) * SCALE + t1 * sky,
            a2 == (SCALE - t2) * SCALE + t2 * sky,
    ;
    lemma_background_value_in_unit(t1, sky);
    lemma_background_value_in_unit(t2, sky);
    lemma_div_is_ordered(510 * a2 + SCALE * SCALE, 510 * a1 + SCALE * SCALE, 2 * SCALE * SCALE);
}

/// The gradient is a convex combination of white and the sky color:
/// every channel lies between the sky channel's 8-bit value (the value
/// at full blend) and pure white, which is the value at blend zero.
pub proof fn lemma_background_channel_convex(t: int, sky: int)
    requires
        0 <= t <= SCALE,
        0 <= sky <= SCALE,
    ensures
        background_channel(SCALE as int, sky) <= background_channel(t, sky) <= background_channel(
            0,
            sky,
        ),
        background_channel(0, sky) == 255,
{
    lemma_background_channel_monotone(0, t, sky);
    lemma_background_channel_monotone(t, SCALE as int, sky);
    assert(background_channel(0, sky) == 255) by (nonlinear_arith);
}

/// The blended channel value stays within one full-brightness unit.
proof fn lemma_background_value_in_unit(t: int, sky: int)
    by (nonlinear_arith)
    requires
        0 <= t <= SCALE,
        0 <= sky <= SCALE,
    ensures
        0 <= (SCALE - t) * SCALE + t * sky <= SCALE * SCALE,
{
}

} // verus!
