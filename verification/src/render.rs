//! The render component the physics core exposes to the drawing
//! collaborator: a plain color value.

use vstd::prelude::*;

verus! {

/// An RGB color as plain channel values.
#[derive(Clone, Copy, Debug, PartialEq, Eq, Structural)]
pub struct Rgb {
    pub r: u8,
    pub g: u8,
    pub b: u8,
}

/// Per-entity render data.
#[derive(Clone, Copy, Debug, PartialEq, Eq, Structural)]
pub struct Render {
    pub color: Rgb,
}

} // verus!
