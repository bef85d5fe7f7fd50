//! Fixed-point 2D physics core: vector math, rigid-body integration, shape
//! representation, narrow-phase collision detection with impulse and
//! penetration resolution, and a per-frame world stepper over an
//! entity-component store.
//!
//! All scalar quantities are fixed-point numbers (`Fx`) with `SCALE`
//! raw units per world unit, so every arithmetic step has an exact
//! integer specification.

pub mod collision;
pub mod entity;
pub mod force;
pub mod fx;
pub mod physics;
pub mod render;
pub mod shape;
pub mod vec2;
pub mod world;

use vstd::prelude::*;

verus! {

} // verus!
