//! Values that painters take.

use vstd::prelude::*;

verus! {

/// A colour with its opacity.
#[derive(Copy, Clone, Eq, PartialEq, Debug, Structural)]
pub struct Color {
    pub r: u8,
    pub g: u8,
    pub b: u8,
    pub a: u8,
}

} // verus!
