//! Environmental force generators applied to bodies before
//! integration.

use crate::fx::Fx;
use crate::vec2::v2_neg;
use crate::vec2::v2_scale;
use crate::vec2::v2_zero;
use crate::vec2::Vec2;
use crate::vec2::V2;
use vstd::prelude::*;

verus! {

/// A friction force opposes the velocity in proportion to it.
pub open spec fn friction_spec(k: int, velocity: V2) -> V2 {
    v2_scale(v2_neg(velocity), k)
}

/// A drag force opposes the velocity in proportion to it and to its
/// squared magnitude.
pub open spec fn drag_spec(k: int, velocity: V2) -> V2 {
    v2_scale(v2_scale(v2_neg(velocity), crate::vec2::v2_mag2(velocity)), k)
}

pub struct Force {}

impl Force {
    /// `-velocity * k`.
    pub fn friction(k: Fx, velocity: Vec2) -> (r: Vec2)
        ensures
            r@ == friction_spec(k@, velocity@),
    {
        velocity.neg().mul(k)
    }

    /// `-velocity * |velocity|^2 * k`.
    pub fn drag(k: Fx, velocity: Vec2) -> (r: Vec2)
        ensures
            r@ == drag_spec(k@, velocity@),
    {
        velocity.neg().mul(velocity.magnitude2()).mul(k)
    }

    /// Placeholder spring force: always zero.
    pub fn spring(_k: Fx, _object_position: Vec2, _anchor_position: Vec2) -> (r: Vec2)
        ensures
            r@ == v2_zero(),
    {
        Vec2::zero()
    }
}

} // verus!
