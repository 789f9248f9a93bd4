//! Colours as the output surface stores them.

use vstd::prelude::*;
use crate::scalar::Scalar;
use crate::vector::Vec3;

verus! {

/// A colour quantised to eight bits a channel.
#[derive(Clone, Copy, Debug, Default, PartialEq, Eq, Structural)]
pub struct Rgb {
    pub r: u8,
    pub g: u8,
    pub b: u8,
}

/// A channel held to the range from zero to one.
pub open spec fn unit(channel: Scalar) -> Scalar {
    channel.clamped(Scalar::zero_spec(), Scalar::one_spec())
}

impl Rgb {
    /// The word that stores this colour: red in bits 16 to 23, green in
    /// bits 8 to 15, blue in bits 0 to 7, the top byte clear.
    pub open spec fn packed(self) -> u32 {
        (self.r * 0x1_0000 + self.g * 0x100 + self.b) as u32
    }

    /// `scale` may have produced `self` from the channels of `color`,
    /// each held to the range from zero to one: red from `x`, green
    /// from `y`, blue from `z`.
    pub open spec fn quantises<Q: Fn(Scalar) -> u8>(self, color: Vec3, scale: Q) -> bool {
        &&& scale.ensures((unit(color.x),), self.r)
        &&& scale.ensures((unit(color.y),), self.g)
        &&& scale.ensures((unit(color.z),), self.b)
    }

    /// Packs the channels as `r << 16 | g << 8 | b`.
    pub fn pack(self) -> (word: u32)
        ensures
            word == self.packed(),
            word == ((self.r as u32) << 16) | ((self.g as u32) << 8) | (self.b as u32),
            word <= 0xFF_FFFF,
    {
        let r: u32 = self.r as u32;
        let g: u32 = self.g as u32;
        let b: u32 = self.b as u32;
        assert((r << 16) | (g << 8) | b == r * 0x1_0000 + g * 0x100 + b) by (bit_vector)
            requires
                r < 0x100,
                g < 0x100,
                b < 0x100,
        ;
        (r << 16) | (g << 8) | b
    }

    /// Quantises `color`: holds each channel to the range from zero to
    /// one and hands it to `scale`, which maps that range to eight bits.
    pub fn from_vec3<Q: Fn(Scalar) -> u8>(color: Vec3, scale: &Q) -> (rgb: Rgb)
        requires
            forall|c: Scalar| scale.requires((c,)),
        ensures
            rgb.quantises(color, *scale),
    {
        let r: u8 = scale(color.x.clamp(Scalar::zero(), Scalar::one()));
        let g: u8 = scale(color.y.clamp(Scalar::zero(), Scalar::one()));
        let b: u8 = scale(color.z.clamp(Scalar::zero(), Scalar::one()));
        Rgb { r, g, b }
    }
}

} // verus!
