//! The world: component arrays, entities, injected environment
//! configuration, and the per-frame stepper.
//!
//! `update_physics` performs, in order: force application and
//! integration for every body; clearing of the per-frame contact
//! flags; an exhaustive pairwise scan in increasing `(i, j)` order,
//! resolving each detected contact immediately; and clamping of every
//! body into the world's rectangular bounds.  Its contract states the
//! resulting component arrays exactly, as a composition of the phase
//! specifications.

use crate::collision::detect_spec;
use crate::collision::resolve_impulse_spec;
use crate::collision::resolve_penetration_spec;
use crate::collision::Collision;
use crate::entity::Entity;
use crate::entity::EntityBuilder;
use crate::force::friction_spec;
use crate::force::Force;
use crate::fx::Fx;
use crate::physics::body_new_spec;
use crate::physics::body_wf;
use crate::physics::integrate_angular_spec;
use crate::physics::integrate_spec;
use crate::physics::lemma_inverse_nonneg;
use crate::physics::Physics;
use crate::physics::PhysicsV;
use crate::render::Render;
use crate::render::Rgb;
use crate::shape::rotational_inertia_spec;
use crate::shape::Shape;
use crate::shape::ShapeV;
use crate::vec2::v2_add;
use crate::vec2::v2_neg;
use crate::vec2::v2_scale;
use crate::vec2::v2_sub;
use crate::vec2::v2_zero;
use crate::vec2::Vec2;
use crate::vec2::V2;
use vstd::prelude::*;

verus! {

pub open spec fn phys_views(s: Seq<Physics>) -> Seq<PhysicsV> {
    s.map_values(|p: Physics| p@)
}

pub open spec fn shape_views(s: Seq<Shape>) -> Seq<ShapeV> {
    s.map_values(|sh: Shape| sh@)
}

/// The mutable state the pairwise scan works on: the entities (for
/// their contact flags) and the body models.
pub ghost struct PairState {
    pub ents: Seq<Entity>,
    pub phys: Seq<PhysicsV>,
}

/// One body's pre-collision phase: weight and friction join the force
/// accumulator, then the linear and angular integrators run.
pub open spec fn step_body(p: PhysicsV, gravity: V2, k: int, dt: int) -> PhysicsV {
    let f1 = v2_add(p.forces, v2_scale(gravity, p.mass));
    let f2 = v2_add(f1, friction_spec(k, p.velocity));
    integrate_angular_spec(integrate_spec(PhysicsV { forces: f2, ..p }, dt), dt)
}

pub open spec fn clear_flag(e: Entity) -> Entity {
    Entity { colliding: false, ..e }
}

/// One axis of the boundary clamp: a coordinate at or beyond a bound
/// is set to the bound and the velocity component on that axis is
/// zeroed.
pub open spec fn axis_clamp(pos: int, vel: int, lo: int, hi: int) -> (int, int) {
    if pos <= lo {
        (lo, 0)
    } else if pos >= hi {
        (hi, 0)
    } else {
        (pos, vel)
    }
}

/// The inelastic, non-reflective boundary: clamp both axes.
pub open spec fn clamp_body(p: PhysicsV, ul: V2, lr: V2) -> PhysicsV {
    let cx = axis_clamp(p.position.x, p.velocity.x, ul.x, lr.x);
    let cy = axis_clamp(p.position.y, p.velocity.y, ul.y, lr.y);
    PhysicsV {
        position: V2 { x: cx.0, y: cy.0 },
        velocity: V2 { x: cx.1, y: cy.1 },
        ..p
    }
}

/// What testing the unordered pair `(i, j)` does to the scan state.
/// A pair is skipped unless both entities carry a shape and a body.
/// On a hit both contact flags are set and, unless both bodies are
/// immovable, the penetration correction and then the impulse are
/// applied immediately.
pub open spec fn pair_once(shapes: Seq<ShapeV>, st: PairState, i: int, j: int) -> PairState {
    let ei = st.ents[i];
    let ej = st.ents[j];
    if ei.shape_idx is Some && ei.physics_idx is Some && ej.shape_idx is Some
        && ej.physics_idx is Some {
        let si = ei.shape_idx->Some_0 as int;
        let pi = ei.physics_idx->Some_0 as int;
        let sj = ej.shape_idx->Some_0 as int;
        let pj = ej.physics_idx->Some_0 as int;
        match detect_spec(shapes[si], shapes[sj], st.phys[pi], st.phys[pj]) {
            Some(c) => {
                let ents1 = st.ents.update(j, Entity { colliding: true, ..st.ents[j] }).update(
                    i,
                    Entity { colliding: true, ..st.ents[i] },
                );
                let ia = st.phys[pi].inverse_mass;
                let ib = st.phys[pj].inverse_mass;
                if ia + ib > 0 {
                    let disp = resolve_penetration_spec(c, ia, ib);
                    let phys1 = st.phys.update(
                        pi,
                        PhysicsV { position: v2_sub(st.phys[pi].position, disp.0), ..st.phys[pi] },
                    );
                    let phys2 = phys1.update(
                        pj,
                        PhysicsV { position: v2_add(phys1[pj].position, disp.1), ..phys1[pj] },
                    );
                    let imp = resolve_impulse_spec(c, phys2[pi], phys2[pj]);
                    let phys3 = phys2.update(
                        pi,
                        PhysicsV {
                            velocity: v2_add(
                                phys2[pi].velocity,
                                v2_scale(imp, phys2[pi].inverse_mass),
                            ),
                            ..phys2[pi]
                        },
                    );
                    let phys4 = phys3.update(
                        pj,
                        PhysicsV {
                            velocity: v2_add(
                                phys3[pj].velocity,
                                v2_scale(v2_neg(imp), phys3[pj].inverse_mass),
                            ),
                            ..phys3[pj]
                        },
                    );
                    PairState { ents: ents1, phys: phys4 }
                } else {
                    PairState { ents: ents1, phys: st.phys }
                }
            },
            None => st,
        }
    } else {
        st
    }
}

/// The pairs `(i, j)` for `j` from the given value up to `n`, in
/// order.
pub open spec fn pair_row(shapes: Seq<ShapeV>, st: PairState, i: int, j: int, n: int) -> PairState
    decreases n - j,
{
    if j >= n {
        st
    } else {
        pair_row(shapes, pair_once(shapes, st, i, j), i, j + 1, n)
    }
}

/// All pairs from row `i` on, each row scanning `j` in `i+1 .. n`.
pub open spec fn pair_scan(shapes: Seq<ShapeV>, st: PairState, i: int, n: int) -> PairState
    decreases n - i,
{
    if i + 1 >= n {
        st
    } else {
        pair_scan(shapes, pair_row(shapes, st, i, i + 1, n), i + 1, n)
    }
}

/// The whole step: integrate every body, clear every contact flag,
/// scan and resolve all pairs in order, then clamp every body into
/// the bounds.
pub open spec fn step_spec(
    shapes: Seq<ShapeV>,
    ents: Seq<Entity>,
    phys: Seq<PhysicsV>,
    gravity: V2,
    k: int,
    ul: V2,
    lr: V2,
    dt: int,
) -> PairState {
    let phys1 = phys.map_values(|p: PhysicsV| step_body(p, gravity, k, dt));
    let ents1 = ents.map_values(|e: Entity| clear_flag(e));
    let scanned = pair_scan(shapes, PairState { ents: ents1, phys: phys1 }, 0, ents.len() as int);
    PairState {
        ents: scanned.ents,
        phys: scanned.phys.map_values(|p: PhysicsV| clamp_body(p, ul, lr)),
    }
}

/// Mapping views commutes with updating one element.
pub proof fn lemma_phys_views_update(s: Seq<Physics>, i: int, p: Physics)
    requires
        0 <= i < s.len(),
    ensures
        phys_views(s.update(i, p)) == phys_views(s).update(i, p@),
{
    assert(phys_views(s.update(i, p)) =~= phys_views(s).update(i, p@));
}

/// Mapping views commutes with appending one element.
pub proof fn lemma_phys_views_push(s: Seq<Physics>, p: Physics)
    ensures
        phys_views(s.push(p)) == phys_views(s).push(p@),
{
    assert(phys_views(s.push(p)) =~= phys_views(s).push(p@));
}

/// Mapping views commutes with appending one element.
pub proof fn lemma_shape_views_push(s: Seq<Shape>, sh: Shape)
    ensures
        shape_views(s.push(sh)) == shape_views(s).push(sh@),
{
    assert(shape_views(s.push(sh)) =~= shape_views(s).push(sh@));
}

/// Every component index an entity holds refers into the arrays.
pub open spec fn entities_wf(ents: Seq<Entity>, n_phys: int, n_shapes: int) -> bool {
    forall|k: int|
        0 <= k < ents.len() ==> {
            &&& (#[trigger] ents[k]).physics_idx is Some ==> (
            ents[k].physics_idx->Some_0 as int) < n_phys
            &&& ents[k].shape_idx is Some ==> (ents[k].shape_idx->Some_0 as int) < n_shapes
        }
}

pub open spec fn bodies_wf(phys: Seq<PhysicsV>) -> bool {
    forall|k: int| 0 <= k < phys.len() ==> body_wf(#[trigger] phys[k])
}

/// The world: environment configuration and the component arrays that
/// exclusively own all bodies, shapes and render data; entities hold
/// only index handles.
pub struct World {
    pub upper_left: Vec2,
    pub lower_right: Vec2,
    pub gravitational_acceleration: Vec2,
    pub friction_coefficient: Fx,
    pub pixels_per_meter: Fx,
    pub physics_components: Vec<Physics>,
    pub shape_components: Vec<Shape>,
    pub render_components: Vec<Render>,
    pub entities: Vec<Entity>,
    pub player_entity_idx: Option<usize>,
    pub flip_player_texture: bool,
}

impl World {
    /// Component indices all valid and every body well formed.
    pub open spec fn wf(self) -> bool {
        &&& entities_wf(
            self.entities@,
            self.physics_components@.len() as int,
            self.shape_components@.len() as int,
        )
        &&& bodies_wf(phys_views(self.physics_components@))
    }

    /// The two corners actually describe a rectangle.
    pub open spec fn bounds_ordered(self) -> bool {
        &&& self.upper_left@.x <= self.lower_right@.x
        &&& self.upper_left@.y <= self.lower_right@.y
    }

    /// A world with the given rectangular bounds and environment
    /// constants, and no components.
    pub fn new(
        ul: Vec2,
        lr: Vec2,
        gravitational_acceleration: Vec2,
        friction_coefficient: Fx,
        pixels_per_meter: Fx,
    ) -> (r: World)
        ensures
            r.upper_left == ul,
            r.lower_right == lr,
            r.gravitational_acceleration == gravitational_acceleration,
            r.friction_coefficient == friction_coefficient,
            r.pixels_per_meter == pixels_per_meter,
            r.physics_components@ =~= Seq::<Physics>::empty(),
            r.shape_components@ =~= Seq::<Shape>::empty(),
            r.render_components@ =~= Seq::<Render>::empty(),
            r.entities@ =~= Seq::<Entity>::empty(),
            r.player_entity_idx is None,
            !r.flip_player_texture,
            r.wf(),
    {
        World {
            upper_left: ul,
            lower_right: lr,
            gravitational_acceleration,
            friction_coefficient,
            pixels_per_meter,
            physics_components: Vec::new(),
            shape_components: Vec::new(),
            render_components: Vec::new(),
            entities: Vec::new(),
            player_entity_idx: None,
            flip_player_texture: false,
        }
    }

    /// The environment configuration and miscellaneous flags agree.
    pub open spec fn same_config(self, other: World) -> bool {
        &&& self.upper_left == other.upper_left
        &&& self.lower_right == other.lower_right
        &&& self.gravitational_acceleration == other.gravitational_acceleration
        &&& self.friction_coefficient == other.friction_coefficient
        &&& self.pixels_per_meter == other.pixels_per_meter
    }

    /// Append a shape; the returned index is its stable handle.
    pub fn add_shape(&mut self, shape: Shape) -> (r: usize)
        ensures
            final(self).shape_components@ == old(self).shape_components@.push(shape),
            r as int == old(self).shape_components@.len(),
            final(self).same_config(*old(self)),
            final(self).physics_components@ == old(self).physics_components@,
            final(self).render_components@ == old(self).render_components@,
            final(self).entities@ == old(self).entities@,
            final(self).player_entity_idx == old(self).player_entity_idx,
            final(self).flip_player_texture == old(self).flip_player_texture,
    {
        self.shape_components.push(shape);
        self.shape_components.len() - 1
    }

    /// Append a body; the returned index is its stable handle.
    pub fn add_physics(&mut self, phys: Physics) -> (r: usize)
        ensures
            final(self).physics_components@ == old(self).physics_components@.push(phys),
            r as int == old(self).physics_components@.len(),
            final(self).same_config(*old(self)),
            final(self).shape_components@ == old(self).shape_components@,
            final(self).render_components@ == old(self).render_components@,
            final(self).entities@ == old(self).entities@,
            final(self).player_entity_idx == old(self).player_entity_idx,
            final(self).flip_player_texture == old(self).flip_player_texture,
    {
        self.physics_components.push(phys);
        self.physics_components.len() - 1
    }

    /// Append render data; the returned index is its stable handle.
    pub fn add_render(&mut self, rend: Render) -> (r: usize)
        ensures
            final(self).render_components@ == old(self).render_components@.push(rend),
            r as int == old(self).render_components@.len(),
            final(self).same_config(*old(self)),
            final(self).physics_components@ == old(self).physics_components@,
            final(self).shape_components@ == old(self).shape_components@,
            final(self).entities@ == old(self).entities@,
            final(self).player_entity_idx == old(self).player_entity_idx,
            final(self).flip_player_texture == old(self).flip_player_texture,
    {
        self.render_components.push(rend);
        self.render_components.len() - 1
    }

    /// Append an entity; the returned index is its stable handle.
    pub fn add_entity(&mut self, entity: Entity) -> (r: usize)
        ensures
            final(self).entities@ == old(self).entities@.push(entity),
            r as int == old(self).entities@.len(),
            final(self).same_config(*old(self)),
            final(self).physics_components@ == old(self).physics_components@,
            final(self).shape_components@ == old(self).shape_components@,
            final(self).render_components@ == old(self).render_components@,
            final(self).player_entity_idx == old(self).player_entity_idx,
            final(self).flip_player_texture == old(self).flip_player_texture,
    {
        self.entities.push(entity);
        self.entities.len() - 1
    }

    /// Spawn a white ball: a circle of `rad` world units scaled to
    /// pixels, with the given mass and restitution one half, at the
    /// given pixel position.  Returns the new entity's index, or
    /// `None`, with the world unchanged, when the body is rejected.
    pub fn spawn_ball(&mut self, pos: (i32, i32), rad: Fx, mass: Fx) -> (r: Option<usize>)
        ensures
            ({
                let radius = crate::fx::mul_m(rad@, old(self).pixels_per_meter@);
                let position = V2 {
                    x: crate::fx::sat(pos.0 as int * (crate::fx::SCALE as int)),
                    y: crate::fx::sat(pos.1 as int * (crate::fx::SCALE as int)),
                };
                let body = body_new_spec(
                    position,
                    mass@,
                    rotational_inertia_spec(ShapeV::Circle { radius }),
                    5_000,
                );
                match r {
                    Some(idx) => {
                        &&& body is Some
                        &&& idx as int == old(self).entities@.len()
                        &&& final(self).render_components@ == old(self).render_components@.push(
                            Render { color: Rgb { r: 255, g: 255, b: 255 } },
                        )
                        &&& phys_views(final(self).physics_components@) == phys_views(
                            old(self).physics_components@,
                        ).push(body->Some_0)
                        &&& shape_views(final(self).shape_components@) == shape_views(
                            old(self).shape_components@,
                        ).push(ShapeV::Circle { radius })
                        &&& final(self).entities@ == old(self).entities@.push(
                            Entity {
                                physics_idx: Some(
                                    old(self).physics_components@.len() as usize,
                                ),
                                shape_idx: Some(old(self).shape_components@.len() as usize),
                                render_idx: Some(old(self).render_components@.len() as usize),
                                colliding: false,
                            },
                        )
                        &&& final(self).player_entity_idx == old(self).player_entity_idx
                    },
                    None => {
                        &&& body is None
                        &&& *final(self) == *old(self)
                    },
                }
            }),
            final(self).same_config(*old(self)),
            final(self).flip_player_texture == old(self).flip_player_texture,
            old(self).wf() ==> final(self).wf(),
    {
        let position = Vec2::from_ints(pos.0 as i64, pos.1 as i64);
        let radius = rad.mul(self.pixels_per_meter);
        let ball = Shape::Circle { radius };
        let inertia = ball.rotational_inertia();
        match Physics::new(position, mass, inertia, Fx::from_raw(5_000)) {
            None => None,
            Some(phys) => {
                let rend_idx = self.add_render(Render { color: Rgb { r: 255, g: 255, b: 255 } });
                let phys_idx = self.add_physics(phys);
                let shape_idx = self.add_shape(ball);
                proof {
                    lemma_phys_views_push(old(self).physics_components@, phys);
                    lemma_shape_views_push(old(self).shape_components@, ball);
                }
                let entity_idx = self.add_entity(
                    EntityBuilder::new().with_shape_component(shape_idx).with_physics_component(
                        phys_idx,
                    ).with_render_component(rend_idx).build(),
                );
                proof {
                    if old(self).wf() {
                        lemma_spawn_wf(*old(self), *self, phys@);
                    }
                }
                Some(entity_idx)
            },
        }
    }

    /// Spawn the player: a box of `width` by `height` world units
    /// scaled to pixels, with the given mass and restitution one
    /// fifth, at the given pixel position.  On success the player
    /// entity index is recorded.  Returns `None`, with the world
    /// unchanged, when the body is rejected.
    pub fn spawn_player(&mut self, pos: (i32, i32), width: Fx, height: Fx, mass: Fx) -> (r: Option<
        usize,
    >)
        ensures
            ({
                let w = crate::fx::mul_m(width@, old(self).pixels_per_meter@);
                let h = crate::fx::mul_m(height@, old(self).pixels_per_meter@);
                let position = V2 {
                    x: crate::fx::sat(pos.0 as int * (crate::fx::SCALE as int)),
                    y: crate::fx::sat(pos.1 as int * (crate::fx::SCALE as int)),
                };
                let body = body_new_spec(
                    position,
                    mass@,
                    rotational_inertia_spec(ShapeV::Rect { w, h }),
                    2_000,
                );
                match r {
                    Some(idx) => {
                        &&& body is Some
                        &&& idx as int == old(self).entities@.len()
                        &&& final(self).render_components@ == old(self).render_components@.push(
                            Render { color: Rgb { r: 0, g: 255, b: 0 } },
                        )
                        &&& phys_views(final(self).physics_components@) == phys_views(
                            old(self).physics_components@,
                        ).push(body->Some_0)
                        &&& shape_views(final(self).shape_components@) == shape_views(
                            old(self).shape_components@,
                        ).push(ShapeV::Rect { w, h })
                        &&& final(self).entities@ == old(self).entities@.push(
                            Entity {
                                physics_idx: Some(
                                    old(self).physics_components@.len() as usize,
                                ),
                                shape_idx: Some(old(self).shape_components@.len() as usize),
                                render_idx: Some(old(self).render_components@.len() as usize),
                                colliding: false,
                            },
                        )
                        &&& final(self).player_entity_idx == Some(idx)
                    },
                    None => {
                        &&& body is None
                        &&& *final(self) == *old(self)
                    },
                }
            }),
            final(self).same_config(*old(self)),
            final(self).flip_player_texture == old(self).flip_player_texture,
            old(self).wf() ==> final(self).wf(),
    {
        let position = Vec2::from_ints(pos.0 as i64, pos.1 as i64);
        let rect = Shape::Rect {
            w: width.mul(self.pixels_per_meter),
            h: height.mul(self.pixels_per_meter),
        };
        let inertia = rect.rotational_inertia();
        match Physics::new(position, mass, inertia, Fx::from_raw(2_000)) {
            None => None,
            Some(phys) => {
                let rend_idx = self.add_render(Render { color: Rgb { r: 0, g: 255, b: 0 } });
                let phys_idx = self.add_physics(phys);
                let shape_idx = self.add_shape(rect);
                proof {
                    lemma_phys_views_push(old(self).physics_components@, phys);
                    lemma_shape_views_push(old(self).shape_components@, rect);
                }
                let entity_idx = self.add_entity(
                    EntityBuilder::new().with_shape_component(shape_idx).with_physics_component(
                        phys_idx,
                    ).with_render_component(rend_idx).build(),
                );
                self.player_entity_idx = Some(entity_idx);
                proof {
                    if old(self).wf() {
                        lemma_spawn_wf(*old(self), *self, phys@);
                    }
                }
                Some(entity_idx)
            },
        }
    }
    /// Phase one of a step: apply weight and friction to every body
    /// and run both integrators.
    fn integrate_all(&mut self, dt: Fx)
        ensures
            phys_views(final(self).physics_components@) == phys_views(
                old(self).physics_components@,
            ).map_values(
                |p: PhysicsV|
                    step_body(
                        p,
                        old(self).gravitational_acceleration@,
                        old(self).friction_coefficient@,
                        dt@,
                    ),
            ),
            final(self).entities@ == old(self).entities@,
            final(self).shape_components@ == old(self).shape_components@,
            final(self).render_components@ == old(self).render_components@,
            final(self).same_config(*old(self)),
            final(self).player_entity_idx == old(self).player_entity_idx,
            final(self).flip_player_texture == old(self).flip_player_texture,
            bodies_wf(phys_views(old(self).physics_components@)) ==> bodies_wf(
                phys_views(final(self).physics_components@),
            ),
    {
        let n = self.physics_components.len();
        let mut i: usize = 0;
        while i < n
            invariant
                i <= n,
                n == self.physics_components@.len(),
                self.physics_components@.len() == old(self).physics_components@.len(),
                forall|k: int|
                    0 <= k < i ==> phys_views(self.physics_components@)[k] == step_body(
                        phys_views(old(self).physics_components@)[k],
                        old(self).gravitational_acceleration@,
                        old(self).friction_coefficient@,
                        dt@,
                    ),
                forall|k: int|
                    i <= k < n ==> self.physics_components@[k] == old(
                        self,
                    ).physics_components@[k],
                self.entities@ == old(self).entities@,
                self.shape_components@ == old(self).shape_components@,
                self.render_components@ == old(self).render_components@,
                self.same_config(*old(self)),
                self.player_entity_idx == old(self).player_entity_idx,
                self.flip_player_texture == old(self).flip_player_texture,
            decreases n - i,
        {
            let ghost prev = self.physics_components@;
            let mut p = self.physics_components[i];
            let weight = self.gravitational_acceleration.mul(p.mass);
            p.apply_force(weight);
            let fric = Force::friction(self.friction_coefficient, p.velocity);
            p.apply_force(fric);
            p.integrate(dt);
            p.integrate_angular(dt);
            self.physics_components.set(i, p);
            proof {
                lemma_phys_views_update(prev, i as int, p);
                assert(p@ == step_body(
                    phys_views(old(self).physics_components@)[i as int],
                    old(self).gravitational_acceleration@,
                    old(self).friction_coefficient@,
                    dt@,
                ));
            }
            i += 1;
        }
        proof {
            assert(phys_views(self.physics_components@) =~= phys_views(
                old(self).physics_components@,
            ).map_values(
                |p: PhysicsV|
                    step_body(
                        p,
                        old(self).gravitational_acceleration@,
                        old(self).friction_coefficient@,
                        dt@,
                    ),
            ));
            if bodies_wf(phys_views(old(self).physics_components@)) {
                assert forall|k: int|
                    0 <= k < phys_views(self.physics_components@).len() implies body_wf(
                    #[trigger] phys_views(self.physics_components@)[k],
                ) by {
                    assert(body_wf(phys_views(old(self).physics_components@)[k]));
                }
            }
        }
    }

    /// Phase two of a step: clear every entity's transient contact
    /// flag.
    fn clear_contact_flags(&mut self)
        ensures
            final(self).entities@ == old(self).entities@.map_values(|e: Entity| clear_flag(e)),
            final(self).physics_components@ == old(self).physics_components@,
            final(self).shape_components@ == old(self).shape_components@,
            final(self).render_components@ == old(self).render_components@,
            final(self).same_config(*old(self)),
            final(self).player_entity_idx == old(self).player_entity_idx,
            final(self).flip_player_texture == old(self).flip_player_texture,
    {
        let n = self.entities.len();
        let mut i: usize = 0;
        while i < n
            invariant
                i <= n,
                n == self.entities@.len(),
                self.entities@.len() == old(self).entities@.len(),
                forall|k: int|
                    0 <= k < i ==> self.entities@[k] == clear_flag(old(self).entities@[k]),
                forall|k: int| i <= k < n ==> self.entities@[k] == old(self).entities@[k],
                self.physics_components@ == old(self).physics_components@,
                self.shape_components@ == old(self).shape_components@,
                self.render_components@ == old(self).render_components@,
                self.same_config(*old(self)),
                self.player_entity_idx == old(self).player_entity_idx,
                self.flip_player_texture == old(self).flip_player_texture,
            decreases n - i,
        {
            let mut e = self.entities[i];
            e.colliding = false;
            self.entities.set(i, e);
            i += 1;
        }
        proof {
            assert(self.entities@ =~= old(self).entities@.map_values(|e: Entity| clear_flag(e)));
        }
    }

    /// Phase four of a step: clamp every body into the bounds,
    /// zeroing the velocity component on each crossed axis.
    fn clamp_all(&mut self)
        ensures
            phys_views(final(self).physics_components@) == phys_views(
                old(self).physics_components@,
            ).map_values(|p: PhysicsV| clamp_body(p, old(self).upper_left@, old(self).lower_right@)),
            final(self).entities@ == old(self).entities@,
            final(self).shape_components@ == old(self).shape_components@,
            final(self).render_components@ == old(self).render_components@,
            final(self).same_config(*old(self)),
            final(self).player_entity_idx == old(self).player_entity_idx,
            final(self).flip_player_texture == old(self).flip_player_texture,
            bodies_wf(phys_views(old(self).physics_components@)) ==> bodies_wf(
                phys_views(final(self).physics_components@),
            ),
            old(self).bounds_ordered() ==> forall|k: int|
                0 <= k < phys_views(final(self).physics_components@).len() ==> {
                    let p = #[trigger] phys_views(final(self).physics_components@)[k];
                    &&& old(self).upper_left@.x <= p.position.x <= old(self).lower_right@.x
                    &&& old(self).upper_left@.y <= p.position.y <= old(self).lower_right@.y
                },
    {
        let n = self.physics_components.len();
        let mut i: usize = 0;
        while i < n
            invariant
                i <= n,
                n == self.physics_components@.len(),
                self.physics_components@.len() == old(self).physics_components@.len(),
                forall|k: int|
                    0 <= k < i ==> phys_views(self.physics_components@)[k] == clamp_body(
                        phys_views(old(self).physics_components@)[k],
                        old(self).upper_left@,
                        old(self).lower_right@,
                    ),
                forall|k: int|
                    i <= k < n ==> self.physics_components@[k] == old(
                        self,
                    ).physics_components@[k],
                self.entities@ == old(self).entities@,
                self.shape_components@ == old(self).shape_components@,
                self.render_components@ == old(self).render_components@,
                self.same_config(*old(self)),
                self.player_entity_idx == old(self).player_entity_idx,
                self.flip_player_texture == old(self).flip_player_texture,
            decreases n - i,
        {
            let ghost prev = self.physics_components@;
            let mut p = self.physics_components[i];
            if p.position.x.raw <= self.upper_left.x.raw {
                p.position.x = self.upper_left.x;
                p.velocity.x = Fx::zero();
            } else if p.position.x.raw >= self.lower_right.x.raw {
                p.position.x = self.lower_right.x;
                p.velocity.x = Fx::zero();
            }
            if p.position.y.raw <= self.upper_left.y.raw {
                p.position.y = self.upper_left.y;
                p.velocity.y = Fx::zero();
            } else if p.position.y.raw >= self.lower_right.y.raw {
                p.position.y = self.lower_right.y;
                p.velocity.y = Fx::zero();
            }
            self.physics_components.set(i, p);
            proof {
                lemma_phys_views_update(prev, i as int, p);
                assert(p@ == clamp_body(
                    phys_views(old(self).physics_components@)[i as int],
                    old(self).upper_left@,
                    old(self).lower_right@,
                ));
            }
            i += 1;
        }
        proof {
            assert(phys_views(self.physics_components@) =~= phys_views(
                old(self).physics_components@,
            ).map_values(
                |p: PhysicsV| clamp_body(p, old(self).upper_left@, old(self).lower_right@),
            ));
            if bodies_wf(phys_views(old(self).physics_components@)) {
                assert forall|k: int|
                    0 <= k < phys_views(self.physics_components@).len() implies body_wf(
                    #[trigger] phys_views(self.physics_components@)[k],
                ) by {
                    assert(body_wf(phys_views(old(self).physics_components@)[k]));
                }
            }
        }
    }
    /// One frame of simulation: integrate every body under weight and
    /// friction, clear the contact flags, test and resolve every pair
    /// in increasing `(i, j)` order, then clamp every body into the
    /// bounds.  The resulting entities and bodies are exactly
    /// `step_spec` of the starting state; when the bounds are ordered,
    /// every body ends the frame inside them.
    pub fn update_physics(&mut self, delta_time_seconds: Fx)
        requires
            old(self).wf(),
        ensures
            ({
                let out = step_spec(
                    shape_views(old(self).shape_components@),
                    old(self).entities@,
                    phys_views(old(self).physics_components@),
                    old(self).gravitational_acceleration@,
                    old(self).friction_coefficient@,
                    old(self).upper_left@,
                    old(self).lower_right@,
                    delta_time_seconds@,
                );
                &&& final(self).entities@ == out.ents
                &&& phys_views(final(self).physics_components@) == out.phys
            }),
            final(self).shape_components@ == old(self).shape_components@,
            final(self).render_components@ == old(self).render_components@,
            final(self).same_config(*old(self)),
            final(self).player_entity_idx == old(self).player_entity_idx,
            final(self).flip_player_texture == old(self).flip_player_texture,
            final(self).wf(),
            old(self).bounds_ordered() ==> forall|k: int|
                0 <= k < phys_views(final(self).physics_components@).len() ==> {
                    let p = #[trigger] phys_views(final(self).physics_components@)[k];
                    &&& old(self).upper_left@.x <= p.position.x <= old(self).lower_right@.x
                    &&& old(self).upper_left@.y <= p.position.y <= old(self).lower_right@.y
                },
    {
        self.integrate_all(delta_time_seconds);
        proof {
            assert(phys_views(self.physics_components@).len() == self.physics_components@.len());
            assert(phys_views(old(self).physics_components@).len() == old(
                self,
            ).physics_components@.len());
            assert(self.physics_components@.len() == old(self).physics_components@.len());
            assert(self.wf());
        }
        self.clear_contact_flags();
        proof {
            assert forall|k: int| 0 <= k < self.entities@.len() implies {
                &&& (#[trigger] self.entities@[k]).physics_idx is Some ==> (
                self.entities@[k].physics_idx->Some_0 as int) < self.physics_components@.len()
                &&& self.entities@[k].shape_idx is Some ==> (
                self.entities@[k].shape_idx->Some_0 as int) < self.shape_components@.len()
            } by {
                assert(self.entities@[k] == clear_flag(old(self).entities@[k]));
            }
            assert(self.wf());
        }
        self.resolve_all_pairs();
        self.clamp_all();
    }

    /// Test one pair and, on a contact, set both flags and resolve
    /// penetration and impulse immediately, skipping the resolution
    /// when both bodies are immovable.
    fn resolve_pair(&mut self, i: usize, j: usize)
        requires
            old(self).wf(),
            i < old(self).entities@.len(),
            j < old(self).entities@.len(),
            i != j,
        ensures
            ({
                let st1 = pair_once(
                    shape_views(old(self).shape_components@),
                    PairState {
                        ents: old(self).entities@,
                        phys: phys_views(old(self).physics_components@),
                    },
                    i as int,
                    j as int,
                );
                &&& final(self).entities@ == st1.ents
                &&& phys_views(final(self).physics_components@) == st1.phys
            }),
            final(self).entities@.len() == old(self).entities@.len(),
            final(self).physics_components@.len() == old(self).physics_components@.len(),
            final(self).shape_components@ == old(self).shape_components@,
            final(self).render_components@ == old(self).render_components@,
            final(self).same_config(*old(self)),
            final(self).player_entity_idx == old(self).player_entity_idx,
            final(self).flip_player_texture == old(self).flip_player_texture,
            final(self).wf(),
    {
        let ghost st0 = PairState {
            ents: old(self).entities@,
            phys: phys_views(old(self).physics_components@),
        };
        let ghost shapes_v = shape_views(old(self).shape_components@);
        let ei = self.entities[i];
        let ej = self.entities[j];
        if let (Some(si), Some(pi), Some(sj), Some(pj)) = (
            ei.shape_idx,
            ei.physics_idx,
            ej.shape_idx,
            ej.physics_idx,
        ) {
            proof {
                assert(st0.ents[i as int] == ei);
                assert(st0.ents[j as int] == ej);
                assert(si < self.shape_components@.len());
                assert(sj < self.shape_components@.len());
                assert(pi < self.physics_components@.len());
                assert(pj < self.physics_components@.len());
                assert(shapes_v[si as int] == self.shape_components@[si as int]@);
                assert(shapes_v[sj as int] == self.shape_components@[sj as int]@);
                assert(st0.phys[pi as int] == self.physics_components@[pi as int]@);
                assert(st0.phys[pj as int] == self.physics_components@[pj as int]@);
            }
            let contact = Collision::detect(
                &self.shape_components[si],
                &self.shape_components[sj],
                &self.physics_components[pi],
                &self.physics_components[pj],
            );
            if let Some(collision) = contact {
                let mut ej2 = self.entities[j];
                ej2.colliding = true;
                self.entities.set(j, ej2);
                let mut ei2 = self.entities[i];
                ei2.colliding = true;
                self.entities.set(i, ei2);
                let ia = self.physics_components[pi].inverse_mass;
                let ib = self.physics_components[pj].inverse_mass;
                proof {
                    assert(body_wf(st0.phys[pi as int]));
                    assert(body_wf(st0.phys[pj as int]));
                    lemma_inverse_nonneg(st0.phys[pi as int].mass);
                    lemma_inverse_nonneg(st0.phys[pj as int].mass);
                }
                if ia.add(ib).raw > 0 {
                    let displacement = collision.resolve_penetration(ia, ib);
                    let ghost prev1 = self.physics_components@;
                    let mut pa = self.physics_components[pi];
                    pa.position = pa.position.sub(displacement.0);
                    self.physics_components.set(pi, pa);
                    proof {
                        lemma_phys_views_update(prev1, pi as int, pa);
                    }
                    let ghost prev2 = self.physics_components@;
                    let mut pb = self.physics_components[pj];
                    pb.position = pb.position.add(displacement.1);
                    self.physics_components.set(pj, pb);
                    proof {
                        lemma_phys_views_update(prev2, pj as int, pb);
                    }
                    let impulse = collision.resolve_impulse(
                        &self.physics_components[pi],
                        &self.physics_components[pj],
                    );
                    let ghost prev3 = self.physics_components@;
                    let mut pa2 = self.physics_components[pi];
                    pa2.apply_impulse(impulse);
                    self.physics_components.set(pi, pa2);
                    proof {
                        lemma_phys_views_update(prev3, pi as int, pa2);
                    }
                    let ghost prev4 = self.physics_components@;
                    let mut pb2 = self.physics_components[pj];
                    pb2.apply_impulse(impulse.neg());
                    self.physics_components.set(pj, pb2);
                    proof {
                        lemma_phys_views_update(prev4, pj as int, pb2);
                    }
                }
            }
        }
        proof {
            let st1 = pair_once(shapes_v, st0, i as int, j as int);
            assert(self.entities@ =~= st1.ents);
            assert(phys_views(self.physics_components@) =~= st1.phys);
            assert forall|k: int| 0 <= k < self.entities@.len() implies {
                &&& (#[trigger] self.entities@[k]).physics_idx == st0.ents[k].physics_idx
                &&& self.entities@[k].shape_idx == st0.ents[k].shape_idx
            } by {
                if k != i && k != j {
                    assert(self.entities@[k] == st0.ents[k]);
                }
            }
            assert forall|k: int|
                0 <= k < phys_views(self.physics_components@).len() implies body_wf(
                #[trigger] phys_views(self.physics_components@)[k],
            ) by {
                assert(body_wf(st0.phys[k]));
                assert(phys_views(self.physics_components@)[k].mass == st0.phys[k].mass);
                assert(phys_views(self.physics_components@)[k].angular_mass == st0.phys[k].angular_mass);
                assert(phys_views(self.physics_components@)[k].inverse_mass == st0.phys[k].inverse_mass);
                assert(phys_views(self.physics_components@)[k].inverse_angular_mass == st0.phys[k].inverse_angular_mass);
                assert(phys_views(self.physics_components@)[k].restitution == st0.phys[k].restitution);
            }
        }
    }

    /// Phase three of a step: test every unordered pair `(i, j)` with
    /// `i < j` in increasing lexicographic order and resolve each
    /// detected contact immediately.
    fn resolve_all_pairs(&mut self)
        requires
            old(self).wf(),
        ensures
            ({
                let out = pair_scan(
                    shape_views(old(self).shape_components@),
                    PairState {
                        ents: old(self).entities@,
                        phys: phys_views(old(self).physics_components@),
                    },
                    0,
                    old(self).entities@.len() as int,
                );
                &&& final(self).entities@ == out.ents
                &&& phys_views(final(self).physics_components@) == out.phys
            }),
            final(self).shape_components@ == old(self).shape_components@,
            final(self).render_components@ == old(self).render_components@,
            final(self).same_config(*old(self)),
            final(self).player_entity_idx == old(self).player_entity_idx,
            final(self).flip_player_texture == old(self).flip_player_texture,
            final(self).wf(),
    {
        let ghost shapes_v = shape_views(old(self).shape_components@);
        let ghost goal = pair_scan(
            shapes_v,
            PairState {
                ents: old(self).entities@,
                phys: phys_views(old(self).physics_components@),
            },
            0,
            old(self).entities@.len() as int,
        );
        let n = self.entities.len();
        if n > 1 {
            let mut i: usize = 0;
            while i + 1 < n
                invariant
                    i < n,
                    n == self.entities@.len(),
                    self.entities@.len() == old(self).entities@.len(),
                    self.physics_components@.len() == old(self).physics_components@.len(),
                    self.shape_components@ == old(self).shape_components@,
                    shapes_v == shape_views(self.shape_components@),
                    entities_wf(
                        self.entities@,
                        self.physics_components@.len() as int,
                        self.shape_components@.len() as int,
                    ),
                    bodies_wf(phys_views(self.physics_components@)),
                    pair_scan(
                        shapes_v,
                        PairState {
                            ents: self.entities@,
                            phys: phys_views(self.physics_components@),
                        },
                        i as int,
                        n as int,
                    ) == goal,
                    self.render_components@ == old(self).render_components@,
                    self.same_config(*old(self)),
                    self.player_entity_idx == old(self).player_entity_idx,
                    self.flip_player_texture == old(self).flip_player_texture,
                decreases n - i,
            {
                let mut j: usize = i + 1;
                while j < n
                    invariant
                        i < n,
                        i + 1 <= j <= n,
                        n == self.entities@.len(),
                        self.entities@.len() == old(self).entities@.len(),
                        self.physics_components@.len() == old(self).physics_components@.len(),
                        self.shape_components@ == old(self).shape_components@,
                        shapes_v == shape_views(self.shape_components@),
                        entities_wf(
                            self.entities@,
                            self.physics_components@.len() as int,
                            self.shape_components@.len() as int,
                        ),
                        bodies_wf(phys_views(self.physics_components@)),
                        pair_scan(
                            shapes_v,
                            pair_row(
                                shapes_v,
                                PairState {
                                    ents: self.entities@,
                                    phys: phys_views(self.physics_components@),
                                },
                                i as int,
                                j as int,
                                n as int,
                            ),
                            i as int + 1,
                            n as int,
                        ) == goal,
                        self.render_components@ == old(self).render_components@,
                        self.same_config(*old(self)),
                        self.player_entity_idx == old(self).player_entity_idx,
                        self.flip_player_texture == old(self).flip_player_texture,
                    decreases n - j,
                {
                    let ghost st0 = PairState {
                        ents: self.entities@,
                        phys: phys_views(self.physics_components@),
                    };
                    self.resolve_pair(i, j);
                    proof {
                        let st1 = PairState {
                            ents: self.entities@,
                            phys: phys_views(self.physics_components@),
                        };
                        assert(pair_row(shapes_v, st0, i as int, j as int, n as int) == pair_row(
                            shapes_v,
                            st1,
                            i as int,
                            j as int + 1,
                            n as int,
                        ));
                    }
                    j += 1;
                }
                i += 1;
            }
        }
    }
}

/// A body at or past a boundary is clamped exactly to that boundary
/// with the crossing velocity component set exactly to zero; a
/// coordinate strictly inside the bounds is untouched, as is
/// everything but position and velocity.
pub proof fn lemma_boundary_clamp(p: PhysicsV, ul: V2, lr: V2)
    ensures
        p.position.x <= ul.x ==> clamp_body(p, ul, lr).position.x == ul.x && clamp_body(
            p,
            ul,
            lr,
        ).velocity.x == 0,
        p.position.x >= lr.x && p.position.x > ul.x ==> clamp_body(p, ul, lr).position.x == lr.x
            && clamp_body(p, ul, lr).velocity.x == 0,
        ul.x < p.position.x < lr.x ==> clamp_body(p, ul, lr).position.x == p.position.x
            && clamp_body(p, ul, lr).velocity.x == p.velocity.x,
        p.position.y <= ul.y ==> clamp_body(p, ul, lr).position.y == ul.y && clamp_body(
            p,
            ul,
            lr,
        ).velocity.y == 0,
        p.position.y >= lr.y && p.position.y > ul.y ==> clamp_body(p, ul, lr).position.y == lr.y
            && clamp_body(p, ul, lr).velocity.y == 0,
        ul.y < p.position.y < lr.y ==> clamp_body(p, ul, lr).position.y == p.position.y
            && clamp_body(p, ul, lr).velocity.y == p.velocity.y,
        clamp_body(p, ul, lr) == (PhysicsV {
            position: clamp_body(p, ul, lr).position,
            velocity: clamp_body(p, ul, lr).velocity,
            ..p
        }),
{
}

/// No pair of entities with both capabilities is in contact.
pub open spec fn no_contacts(shapes: Seq<ShapeV>, st: PairState) -> bool {
    forall|i: int, j: int|
        #![trigger st.ents[i], st.ents[j]]
        0 <= i < st.ents.len() && 0 <= j < st.ents.len() && st.ents[i].shape_idx is Some
            && st.ents[i].physics_idx is Some && st.ents[j].shape_idx is Some
            && st.ents[j].physics_idx is Some ==> detect_spec(
            shapes[st.ents[i].shape_idx->Some_0 as int],
            shapes[st.ents[j].shape_idx->Some_0 as int],
            st.phys[st.ents[i].physics_idx->Some_0 as int],
            st.phys[st.ents[j].physics_idx->Some_0 as int],
        ) is None
}

proof fn lemma_pair_row_noop(shapes: Seq<ShapeV>, st: PairState, i: int, j: int, n: int)
    requires
        0 <= i < n,
        0 <= j,
        n == st.ents.len(),
        no_contacts(shapes, st),
    ensures
        pair_row(shapes, st, i, j, n) == st,
    decreases n - j,
{
    if j < n {
        assert(pair_once(shapes, st, i, j) == st);
        lemma_pair_row_noop(shapes, st, i, j + 1, n);
    }
}

proof fn lemma_pair_scan_noop(shapes: Seq<ShapeV>, st: PairState, i: int, n: int)
    requires
        0 <= i,
        n == st.ents.len(),
        no_contacts(shapes, st),
    ensures
        pair_scan(shapes, st, i, n) == st,
    decreases n - i,
{
    if i + 1 < n {
        lemma_pair_row_noop(shapes, st, i, i + 1, n);
        lemma_pair_scan_noop(shapes, st, i + 1, n);
    }
}

/// A quiescent world stays put: with zero gravity, zero friction,
/// every body at rest with empty accumulators, representable
/// positions and rotations, every body inside the bounds, and no
/// contacting pair, a step of any duration leaves every body exactly
/// unchanged and only clears the contact flags.
#[verifier::rlimit(60)]
pub proof fn lemma_step_quiescent(
    shapes: Seq<ShapeV>,
    ents: Seq<Entity>,
    phys: Seq<PhysicsV>,
    ul: V2,
    lr: V2,
    dt: int,
)
    requires
        forall|k: int|
            0 <= k < phys.len() ==> {
                &&& (#[trigger] phys[k]).velocity == v2_zero()
                &&& phys[k].forces == v2_zero()
                &&& phys[k].angular_velocity == 0
                &&& phys[k].torque == 0
                &&& -crate::fx::RAW_MAX <= phys[k].position.x <= crate::fx::RAW_MAX
                &&& -crate::fx::RAW_MAX <= phys[k].position.y <= crate::fx::RAW_MAX
                &&& -crate::fx::RAW_MAX <= phys[k].rotation <= crate::fx::RAW_MAX
                &&& ul.x <= phys[k].position.x <= lr.x
                &&& ul.y <= phys[k].position.y <= lr.y
            },
        no_contacts(shapes, PairState { ents, phys }),
    ensures
        step_spec(shapes, ents, phys, v2_zero(), 0, ul, lr, dt).phys == phys,
        step_spec(shapes, ents, phys, v2_zero(), 0, ul, lr, dt).ents == ents.map_values(
            |e: Entity| clear_flag(e),
        ),
{
    let phys1 = phys.map_values(|p: PhysicsV| step_body(p, v2_zero(), 0, dt));
    let ents1 = ents.map_values(|e: Entity| clear_flag(e));
    assert forall|k: int| 0 <= k < phys.len() implies phys1[k] == phys[k] by {
        let p = phys[k];
        crate::fx::lemma_mul_m_zero(p.mass);
        crate::fx::lemma_mul_m_zero(0);
        crate::fx::lemma_mul_m_zero(p.inverse_mass);
        crate::fx::lemma_mul_m_zero(dt);
        crate::fx::lemma_mul_m_zero(p.inverse_angular_mass);
        assert(step_body(p, v2_zero(), 0, dt) == p);
    }
    assert(phys1 =~= phys);
    let st1 = PairState { ents: ents1, phys: phys1 };
    assert forall|i: int, j: int|
        #![trigger st1.ents[i], st1.ents[j]]
        0 <= i < st1.ents.len() && 0 <= j < st1.ents.len() && st1.ents[i].shape_idx is Some
            && st1.ents[i].physics_idx is Some && st1.ents[j].shape_idx is Some
            && st1.ents[j].physics_idx is Some implies detect_spec(
        shapes[st1.ents[i].shape_idx->Some_0 as int],
        shapes[st1.ents[j].shape_idx->Some_0 as int],
        st1.phys[st1.ents[i].physics_idx->Some_0 as int],
        st1.phys[st1.ents[j].physics_idx->Some_0 as int],
    ) is None by {
        assert(st1.ents[i] == clear_flag(ents[i]));
        assert(st1.ents[j] == clear_flag(ents[j]));
        assert(ents[i].shape_idx is Some && ents[i].physics_idx is Some && ents[j].shape_idx
            is Some && ents[j].physics_idx is Some);
    }
    assert(no_contacts(shapes, st1));
    lemma_pair_scan_noop(shapes, st1, 0, ents.len() as int);
    assert forall|k: int| 0 <= k < phys.len() implies clamp_body(phys[k], ul, lr) == phys[k] by {
        assert(phys[k].velocity == v2_zero());
    }
    assert(phys1.map_values(|p: PhysicsV| clamp_body(p, ul, lr)) =~= phys);
}

/// A spawn appends one well-formed body, one shape, and one entity
/// pointing at them, so world well-formedness is preserved.
proof fn lemma_spawn_wf(w0: World, w1: World, added: PhysicsV)
    requires
        body_wf(added),
        phys_views(w1.physics_components@) == phys_views(w0.physics_components@).push(added),
        w1.entities@.len() == w0.entities@.len() + 1,
        forall|k: int|
            0 <= k < w0.entities@.len() ==> w1.entities@[k] == w0.entities@[k],
        w1.entities@.last() == (Entity {
            physics_idx: Some(w0.physics_components@.len() as usize),
            shape_idx: Some(w0.shape_components@.len() as usize),
            render_idx: Some(w0.render_components@.len() as usize),
            colliding: false,
        }),
        w1.physics_components@.len() == w0.physics_components@.len() + 1,
        w1.shape_components@.len() == w0.shape_components@.len() + 1,
        w0.wf(),
    ensures
        w1.wf(),
{
    assert forall|k: int| 0 <= k < w1.entities@.len() implies {
        &&& (#[trigger] w1.entities@[k]).physics_idx is Some ==> (
        w1.entities@[k].physics_idx->Some_0 as int) < w1.physics_components@.len()
        &&& w1.entities@[k].shape_idx is Some ==> (w1.entities@[k].shape_idx->Some_0 as int)
            < w1.shape_components@.len()
    } by {
        if k < w0.entities@.len() {
            assert(w1.entities@[k] == w0.entities@[k]);
        } else {
            assert(w1.entities@[k] == w1.entities@.last());
        }
    }
    assert forall|k: int| 0 <= k < phys_views(w1.physics_components@).len() implies body_wf(
        #[trigger] phys_views(w1.physics_components@)[k],
    ) by {
        if k < w0.physics_components@.len() {
            assert(phys_views(w1.physics_components@)[k] == phys_views(
                w0.physics_components@,
            )[k]);
        }
    }
}

} // verus!
