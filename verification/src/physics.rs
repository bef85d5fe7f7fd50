//! Rigid-body state and the semi-implicit Euler integrator.
//!
//! A body accumulates forces and torque, which the per-step
//! integrators consume; impulses change velocity immediately.  A body
//! is only ever constructed with positive mass, so its inverse mass
//! and inverse angular mass are fixed non-negative quotients.

use crate::fx::div_m;
use crate::fx::mul_m;
use crate::fx::sat;
use crate::fx::tdiv;
use crate::fx::Fx;
use crate::fx::SCALE;
use crate::vec2::v2_add;
use crate::vec2::v2_scale;
use crate::vec2::v2_zero;
use crate::vec2::Vec2;
use crate::vec2::V2;
use vstd::arithmetic::div_mod::lemma_div_pos_is_pos;
use vstd::prelude::*;

verus! {

/// Model of a body: the raw values of its state.
pub ghost struct PhysicsV {
    pub position: V2,
    pub velocity: V2,
    pub forces: V2,
    pub mass: int,
    pub inverse_mass: int,
    pub rotation: int,
    pub angular_velocity: int,
    pub torque: int,
    pub angular_mass: int,
    pub inverse_angular_mass: int,
    pub restitution: int,
}

/// Construction invariant: positive masses, cached inverses, and a
/// restitution within `[0, 1]`.
pub open spec fn body_wf(p: PhysicsV) -> bool {
    &&& p.mass > 0
    &&& p.angular_mass > 0
    &&& p.inverse_mass == div_m(SCALE as int, p.mass)
    &&& p.inverse_angular_mass == div_m(SCALE as int, p.angular_mass)
    &&& 0 <= p.restitution <= SCALE as int
}

/// What `Physics::new` builds: `None` exactly when the mass is not
/// positive, the angular mass rounds to nothing, or the restitution is
/// outside `[0, 1]`.
pub open spec fn body_new_spec(position: V2, mass: int, rotational_inertia: int, restitution: int) -> Option<
    PhysicsV,
> {
    let angular_mass = mul_m(rotational_inertia, mass);
    if mass <= 0 || angular_mass <= 0 || !(0 <= restitution <= SCALE as int) {
        None
    } else {
        Some(
            PhysicsV {
                position,
                velocity: v2_zero(),
                forces: v2_zero(),
                mass,
                inverse_mass: div_m(SCALE as int, mass),
                rotation: 0,
                angular_velocity: 0,
                torque: 0,
                angular_mass,
                inverse_angular_mass: div_m(SCALE as int, angular_mass),
                restitution,
            },
        )
    }
}

/// Semi-implicit Euler: acceleration from the accumulated forces,
/// velocity from acceleration, position from the new velocity; the
/// force accumulator is reset.
pub open spec fn integrate_spec(p: PhysicsV, dt: int) -> PhysicsV {
    let acceleration = v2_scale(p.forces, p.inverse_mass);
    let velocity = v2_add(p.velocity, v2_scale(acceleration, dt));
    let position = v2_add(p.position, v2_scale(velocity, dt));
    PhysicsV { position, velocity, forces: v2_zero(), ..p }
}

/// The same pattern over torque, angular velocity and rotation.
pub open spec fn integrate_angular_spec(p: PhysicsV, dt: int) -> PhysicsV {
    let angular_acceleration = mul_m(p.torque, p.inverse_angular_mass);
    let angular_velocity = sat(p.angular_velocity + mul_m(angular_acceleration, dt));
    let rotation = sat(p.rotation + mul_m(angular_velocity, dt));
    PhysicsV { rotation, angular_velocity, torque: 0, ..p }
}

/// A positive mass has a non-negative inverse.
pub proof fn lemma_inverse_nonneg(mass: int)
    requires
        mass > 0,
    ensures
        0 <= div_m(SCALE as int, mass) <= SCALE as int * SCALE as int,
{
    lemma_div_pos_is_pos(SCALE as int * SCALE as int, mass);
    assert(tdiv(SCALE as int * SCALE as int, mass) <= SCALE as int * SCALE as int) by {
        vstd::arithmetic::div_mod::lemma_div_nonincreasing(
            SCALE as int * SCALE as int,
            mass,
        );
    }
}

/// Rigid-body state: kinematics, accumulators, and mass properties.
#[derive(Clone, Copy, Debug, PartialEq, Eq, Structural)]
pub struct Physics {
    pub position: Vec2,
    pub velocity: Vec2,
    pub forces: Vec2,
    pub mass: Fx,
    pub inverse_mass: Fx,
    pub rotation: Fx,
    pub angular_velocity: Fx,
    pub torque: Fx,
    pub angular_mass: Fx,
    pub inverse_angular_mass: Fx,
    pub restitution: Fx,
}

impl View for Physics {
    type V = PhysicsV;

    open spec fn view(&self) -> PhysicsV {
        PhysicsV {
            position: self.position@,
            velocity: self.velocity@,
            forces: self.forces@,
            mass: self.mass@,
            inverse_mass: self.inverse_mass@,
            rotation: self.rotation@,
            angular_velocity: self.angular_velocity@,
            torque: self.torque@,
            angular_mass: self.angular_mass@,
            inverse_angular_mass: self.inverse_angular_mass@,
            restitution: self.restitution@,
        }
    }
}

impl Physics {
    /// Build a body at rest.  Rejects a non-positive mass, an angular
    /// mass that rounds to nothing, and a restitution outside
    /// `[0, 1]`, so that the inverse masses are well defined.
    pub fn new(position: Vec2, mass: Fx, rotational_inertia: Fx, restitution: Fx) -> (r: Option<
        Physics,
    >)
        ensures
            match r {
                Some(p) => {
                    &&& body_new_spec(position@, mass@, rotational_inertia@, restitution@)
                        == Some(p@)
                    &&& body_wf(p@)
                },
                None => body_new_spec(position@, mass@, rotational_inertia@, restitution@)
                    is None,
            },
    {
        let angular_mass = rotational_inertia.mul(mass);
        if mass.raw <= 0 || angular_mass.raw <= 0 || restitution.raw < 0
            || restitution.raw > SCALE {
            return None;
        }
        Some(
            Physics {
                position,
                velocity: Vec2::zero(),
                forces: Vec2::zero(),
                mass,
                inverse_mass: Fx::one().div(mass),
                rotation: Fx::zero(),
                angular_velocity: Fx::zero(),
                torque: Fx::zero(),
                angular_mass,
                inverse_angular_mass: Fx::one().div(angular_mass),
                restitution,
            },
        )
    }

    /// Accumulate a force; the velocity changes only at integration.
    pub fn apply_force(&mut self, force: Vec2)
        ensures
            final(self)@ == (PhysicsV { forces: v2_add(old(self)@.forces, force@), ..old(self)@ }),
    {
        self.forces = self.forces.add(force);
    }

    /// Accumulate a torque; the angular velocity changes only at
    /// integration.
    pub fn apply_torque(&mut self, torq: Fx)
        ensures
            final(self)@ == (PhysicsV { torque: sat(old(self)@.torque + torq@), ..old(self)@ }),
    {
        self.torque = self.torque.add(torq);
    }

    /// An instantaneous change of momentum: the velocity moves by the
    /// impulse times the inverse mass, bypassing the force
    /// accumulator.
    pub fn apply_impulse(&mut self, impulse: Vec2)
        ensures
            final(self)@ == (PhysicsV {
                velocity: v2_add(old(self)@.velocity, v2_scale(impulse@, old(self)@.inverse_mass)),
                ..old(self)@
            }),
    {
        self.velocity = self.velocity.add(impulse.mul(self.inverse_mass));
    }

    pub fn integrate(&mut self, dt: Fx)
        ensures
            final(self)@ == integrate_spec(old(self)@, dt@),
    {
        let acceleration = self.forces.mul(self.inverse_mass);
        self.velocity = self.velocity.add(acceleration.mul(dt));
        self.position = self.position.add(self.velocity.mul(dt));
        self.forces = Vec2::zero();
    }

    pub fn integrate_angular(&mut self, dt: Fx)
        ensures
            final(self)@ == integrate_angular_spec(old(self)@, dt@),
    {
        let angular_acceleration = self.torque.mul(self.inverse_angular_mass);
        self.angular_velocity = self.angular_velocity.add(angular_acceleration.mul(dt));
        self.rotation = self.rotation.add(self.angular_velocity.mul(dt));
        self.torque = Fx::zero();
    }
}

} // verus!
