//! Entities: sets of optional indices into the world's component
//! arrays, at most one index per capability kind, plus a transient
//! per-frame contact flag.

use vstd::prelude::*;

verus! {

/// The capability kinds an entity can hold an index for.
#[derive(Clone, Copy, Debug, PartialEq, Eq, Structural)]
pub enum Component {
    Physics,
    Shape,
    Render,
}

/// An entity: optional component indices and the per-frame contact
/// flag, set while the entity touches another during a step.
#[derive(Clone, Copy, Debug)]
pub struct Entity {
    pub physics_idx: Option<usize>,
    pub shape_idx: Option<usize>,
    pub render_idx: Option<usize>,
    pub colliding: bool,
}

/// The index an entity holds for a capability kind.
pub open spec fn index_for_spec(e: Entity, comp: Component) -> Option<usize> {
    match comp {
        Component::Physics => e.physics_idx,
        Component::Shape => e.shape_idx,
        Component::Render => e.render_idx,
    }
}

impl Entity {
    pub fn get_index_for(&self, comp: Component) -> (r: Option<usize>)
        ensures
            r == index_for_spec(*self, comp),
    {
        match comp {
            Component::Physics => self.physics_idx,
            Component::Shape => self.shape_idx,
            Component::Render => self.render_idx,
        }
    }
}

/// Accumulates component indices for an entity under construction.
#[derive(Clone, Copy, Debug)]
pub struct EntityBuilder {
    pub physics_idx: Option<usize>,
    pub shape_idx: Option<usize>,
    pub render_idx: Option<usize>,
}

impl Default for EntityBuilder {
    fn default() -> (r: EntityBuilder)
        ensures
            r.physics_idx is None,
            r.shape_idx is None,
            r.render_idx is None,
    {
        EntityBuilder { physics_idx: None, shape_idx: None, render_idx: None }
    }
}

impl EntityBuilder {
    pub fn new() -> (r: EntityBuilder)
        ensures
            r.physics_idx is None,
            r.shape_idx is None,
            r.render_idx is None,
    {
        EntityBuilder { physics_idx: None, shape_idx: None, render_idx: None }
    }

    pub fn with_physics_component(self, idx: usize) -> (r: EntityBuilder)
        ensures
            r == (EntityBuilder { physics_idx: Some(idx), ..self }),
    {
        EntityBuilder { physics_idx: Some(idx), ..self }
    }

    pub fn with_render_component(self, idx: usize) -> (r: EntityBuilder)
        ensures
            r == (EntityBuilder { render_idx: Some(idx), ..self }),
    {
        EntityBuilder { render_idx: Some(idx), ..self }
    }

    pub fn with_shape_component(self, idx: usize) -> (r: EntityBuilder)
        ensures
            r == (EntityBuilder { shape_idx: Some(idx), ..self }),
    {
        EntityBuilder { shape_idx: Some(idx), ..self }
    }

    /// The finished entity, not yet colliding with anything.
    pub fn build(self) -> (r: Entity)
        ensures
            r == (Entity {
                physics_idx: self.physics_idx,
                shape_idx: self.shape_idx,
                render_idx: self.render_idx,
                colliding: false,
            }),
    {
        Entity {
            physics_idx: self.physics_idx,
            shape_idx: self.shape_idx,
            render_idx: self.render_idx,
            colliding: false,
        }
    }
}

} // verus!
