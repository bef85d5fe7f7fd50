//! Shapes attached to bodies: circle, axis-aligned rectangle, and an
//! inert polygon placeholder that never reaches the collision logic.

use crate::fx::div_m;
use crate::fx::mul_m;
use crate::fx::sat;
use crate::fx::Fx;
use crate::fx::SCALE;
use crate::vec2::Vec2;
use crate::vec2::V2;
use vstd::prelude::*;

verus! {

/// Model of a shape: its kind and raw dimensions.
pub ghost enum ShapeV {
    Circle { radius: int },
    Rect { w: int, h: int },
    Polygon { verts: Seq<V2> },
}

/// The rotational-inertia coefficient of a shape: `radius^2 / 2` for a
/// disk, `(w^2 + h^2) / 12` for a box, and `1` for the polygon
/// placeholder.  It is multiplied by mass at body construction.
pub open spec fn rotational_inertia_spec(s: ShapeV) -> int {
    match s {
        ShapeV::Circle { radius } => mul_m(mul_m((SCALE as int) / 2, radius), radius),
        ShapeV::Rect { w, h } => mul_m(
            div_m(SCALE as int, 12 * (SCALE as int)),
            sat(mul_m(w, w) + mul_m(h, h)),
        ),
        ShapeV::Polygon { .. } => SCALE as int,
    }
}

/// A collision shape, centered on its owning body's position.
pub enum Shape {
    Circle { radius: Fx },
    /// Axis-aligned: rotation is stored on the body but ignored by the
    /// rectangle's collision geometry.
    Rect { w: Fx, h: Fx },
    /// Placeholder: never produces a contact.
    Polygon { verts: Vec<Vec2> },
}

impl View for Shape {
    type V = ShapeV;

    open spec fn view(&self) -> ShapeV {
        match self {
            Shape::Circle { radius } => ShapeV::Circle { radius: radius@ },
            Shape::Rect { w, h } => ShapeV::Rect { w: w@, h: h@ },
            Shape::Polygon { verts } => ShapeV::Polygon {
                verts: verts@.map_values(|v: Vec2| v@),
            },
        }
    }
}

impl Shape {
    pub fn rotational_inertia(&self) -> (r: Fx)
        ensures
            r@ == rotational_inertia_spec(self@),
    {
        match self {
            Shape::Circle { radius } => Fx::from_raw(5_000).mul(*radius).mul(*radius),
            Shape::Rect { w, h } => {
                let twelfth = Fx::one().div(Fx::from_int(12));
                twelfth.mul(w.mul(*w).add(h.mul(*h)))
            },
            Shape::Polygon { .. } => Fx::one(),
        }
    }
}

} // verus!
