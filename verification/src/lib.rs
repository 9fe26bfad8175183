//! Encoding of images into the `pnm` family of formats (PBM, PGM, PPM and PAM).
use vstd::prelude::*;

pub mod autobreak;
pub mod color;
pub mod decimal;
pub mod encoder;
pub mod header;
pub mod laws;

verus! {
} // verus!
