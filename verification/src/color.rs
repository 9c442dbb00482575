//! Colours as four 8-bit channels, and how light falls on a colour.
//!
//! A channel value `v` stands for the intensity `v / 255`, as in an 8-bit
//! normalised texture.

use vstd::prelude::*;

verus! {

/// A colour of an 8-bit normalised texture.
#[derive(Clone, Copy, Debug, PartialEq, Eq, Structural)]
pub struct Rgba {
    pub r: u8,
    pub g: u8,
    pub b: u8,
    pub a: u8,
}

/// The product of two channel intensities, rounded to the nearest channel
/// value.
pub open spec fn modulate_channel(base: int, light: int) -> int {
    (base * light + 127) / 255
}

/// The base colour under the given light, channel by channel.
pub open spec fn modulate(base: Rgba, light: Rgba) -> Rgba {
    Rgba {
        r: modulate_channel(base.r as int, light.r as int) as u8,
        g: modulate_channel(base.g as int, light.g as int) as u8,
        b: modulate_channel(base.b as int, light.b as int) as u8,
        a: modulate_channel(base.a as int, light.a as int) as u8,
    }
}

/// A modulated channel is a channel value again, and no brighter than
/// either of the two it was made from.
pub proof fn lemma_modulate_channel_bounds(base: u8, light: u8)
    ensures
        0 <= modulate_channel(base as int, light as int) <= base,
        0 <= modulate_channel(base as int, light as int) <= light,
{
    let b = base as int;
    let l = light as int;
    assert(0 <= b * l <= 255 * b && b * l <= 255 * l) by (nonlinear_arith)
        requires
            0 <= b <= 255,
            0 <= l <= 255,
    ;
}

fn compose_channel(base: u8, light: u8) -> (lit: u8)
    ensures
        lit == modulate_channel(base as int, light as int),
{
    proof {
        lemma_modulate_channel_bounds(base, light);
    }
    let product: u32 = base as u32 * light as u32;
    ((product + 127) / 255) as u8
}

/// The colour that the compositing pass gives a fragment: the sample of the
/// object's own texture times the sample of the light map, channel by
/// channel.
pub fn compose(base: Rgba, light: Rgba) -> (lit: Rgba)
    ensures
        lit == modulate(base, light),
{
    Rgba {
        r: compose_channel(base.r, light.r),
        g: compose_channel(base.g, light.g),
        b: compose_channel(base.b, light.b),
        a: compose_channel(base.a, light.a),
    }
}

/// Full light leaves a colour as it is, and no light leaves black.
pub proof fn lemma_modulate_extremes(base: Rgba)
    ensures
        modulate(base, Rgba { r: 255, g: 255, b: 255, a: 255 }) == base,
        modulate(base, Rgba { r: 0, g: 0, b: 0, a: 0 }) == (Rgba { r: 0, g: 0, b: 0, a: 0 }),
{
}

} // verus!
