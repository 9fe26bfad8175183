//! Colour types of image buffers.
use vstd::prelude::*;

verus! {

/// The colour layout of an image buffer, with the number of bits per sample.
#[derive(Clone, Copy, Debug, PartialEq, Eq)]
pub enum ColorType {
    /// Luminance only.
    Gray(u8),
    /// Red, green and blue.
    RGB(u8),
    /// Indices into a palette; expanded to three components.
    Palette(u8),
    /// Luminance with an alpha channel.
    GrayA(u8),
    /// Red, green and blue with an alpha channel.
    RGBA(u8),
}

/// The number of components of one pixel of the colour type.
pub open spec fn spec_num_components(c: ColorType) -> nat {
    match c {
        ColorType::Gray(_) => 1,
        ColorType::RGB(_) => 3,
        ColorType::Palette(_) => 3,
        ColorType::GrayA(_) => 2,
        ColorType::RGBA(_) => 4,
    }
}

/// The number of bits of one sample of the colour type.
pub open spec fn bit_depth(c: ColorType) -> u8 {
    match c {
        ColorType::Gray(n) => n,
        ColorType::RGB(n) => n,
        ColorType::Palette(n) => n,
        ColorType::GrayA(n) => n,
        ColorType::RGBA(n) => n,
    }
}

/// Returns the number of components of one pixel of the colour type.
pub fn num_components(c: ColorType) -> (n: usize)
    ensures
        n == spec_num_components(c),
{
    match c {
        ColorType::Gray(_) => 1,
        ColorType::RGB(_) => 3,
        ColorType::Palette(_) => 3,
        ColorType::GrayA(_) => 2,
        ColorType::RGBA(_) => 4,
    }
}

} // verus!
