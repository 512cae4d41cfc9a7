//! Color modes of the noise texture.
//!
//! A texture always stores three channel bytes per pixel; the mode decides
//! how many of them carry independent color information.

use vstd::prelude::*;

verus! {

/// The channel layout of a texture: one gray channel, two channels, or
/// full RGB. The mode is fixed while a refinement run is active.
#[derive(Debug, PartialEq, Eq, Structural, Clone, Copy)]
pub enum ColorMode {
    Gray,
    Rg,
    Rgb,
}

impl ColorMode {
    /// Number of color channels the mode activates.
    pub open spec fn spec_dimension(&self) -> int {
        match self {
            ColorMode::Gray => 1,
            ColorMode::Rg => 2,
            ColorMode::Rgb => 3,
        }
    }

    /// Channel dimensionality `d` used by the energy model: 1, 2 or 3.
    pub fn dimension(&self) -> (d: i32)
        ensures
            d == self.spec_dimension(),
            1 <= d <= 3,
    {
        match self {
            ColorMode::Gray => 1,
            ColorMode::Rg => 2,
            ColorMode::Rgb => 3,
        }
    }
}

} // verus!
