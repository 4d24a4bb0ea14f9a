//! The entity store and its components.
//!
//! Entities own a sparse set of optional physics attributes, identified by
//! a stable numeric handle.  Exactly one role tag (player, projectile or
//! star) describes each entity's behavioural category.

use vstd::prelude::*;

use crate::fixed::{in_force, in_scalar, MAX_FORCE, MAX_SCALAR, SCALE};
use crate::vector::{v3i_zero, vadd, v3i, V3i, Vec2, Vec3};

verus! {

/// Names of the per-entity force contributions summed into the net force.
#[derive(Clone, Copy, PartialEq, Eq, Structural, Debug)]
pub enum ForceName {
    Thrust,
    Gravity,
}

/// Per-entity mapping from force name to contribution; entries are
/// overwritten by their source each frame, never accumulated across
/// frames.
#[derive(Clone, Copy, Debug)]
pub struct Forces {
    pub thrust: Option<Vec3>,
    pub gravity: Option<Vec3>,
}

/// The contribution stored under a name, or zero where none is set.
pub open spec fn force_of(f: Forces, name: ForceName) -> V3i {
    match name {
        ForceName::Thrust => if f.thrust is Some {
            v3i(f.thrust->0)
        } else {
            v3i_zero()
        },
        ForceName::Gravity => if f.gravity is Some {
            v3i(f.gravity->0)
        } else {
            v3i_zero()
        },
    }
}

/// Sum of all contributions currently in the force set.
pub open spec fn net_of(f: Forces) -> V3i {
    vadd(force_of(f, ForceName::Thrust), force_of(f, ForceName::Gravity))
}

pub open spec fn wf_vec3(v: Vec3) -> bool {
    in_scalar(v.x as int) && in_scalar(v.y as int) && in_scalar(v.z as int)
}

pub open spec fn wf_force_vec(v: Vec3) -> bool {
    in_force(v.x as int) && in_force(v.y as int) && in_force(v.z as int)
}

pub open spec fn wf_forces(f: Forces) -> bool {
    &&& (f.thrust is Some ==> wf_force_vec(f.thrust->0))
    &&& (f.gravity is Some ==> wf_force_vec(f.gravity->0))
}

impl Forces {
    /// An empty force set.
    pub fn none() -> (f: Forces)
        ensures
            f.thrust is None,
            f.gravity is None,
    {
        Forces { thrust: None, gravity: None }
    }

    /// Inserts or overwrites the named contribution for the current frame.
    pub fn set_force(&mut self, name: ForceName, value: Vec3)
        ensures
            force_of(*final(self), name) == v3i(value),
            forall|other: ForceName|
                other != name ==> force_of(*final(self), other) == force_of(*old(self), other),
            name == ForceName::Thrust ==> *final(self) == (Forces {
                thrust: Some(value),
                gravity: old(self).gravity,
            }),
            name == ForceName::Gravity ==> *final(self) == (Forces {
                thrust: old(self).thrust,
                gravity: Some(value),
            }),
    {
        match name {
            ForceName::Thrust => {
                self.thrust = Some(value);
            },
            ForceName::Gravity => {
                self.gravity = Some(value);
            },
        }
    }

    /// The net force: the sum of all contributions currently in the set.
    pub fn net_force(&self) -> (n: Vec3)
        requires
            wf_forces(*self),
        ensures
            v3i(n) == net_of(*self),
    {
        let mut x: i64 = 0;
        let mut y: i64 = 0;
        let mut z: i64 = 0;
        if let Some(t) = self.thrust {
            x = x + t.x;
            y = y + t.y;
            z = z + t.z;
        }
        if let Some(g) = self.gravity {
            x = x + g.x;
            y = y + g.y;
            z = z + g.z;
        }
        Vec3 { x, y, z }
    }
}

/// Inertia of an entity; defaults to one unit.
#[derive(Clone, Copy, Debug)]
pub struct Mass(pub i64);

impl Default for Mass {
    fn default() -> (m: Mass)
        ensures
            m.0 == SCALE,
    {
        Mass(SCALE)
    }
}

/// Rate of velocity change, recomputed every frame from force and mass.
#[derive(Clone, Copy, Debug)]
pub struct Acceleration(pub Vec3);

/// Rate of position change, in units per second.
#[derive(Clone, Copy, Debug)]
pub struct Velocity(pub Vec3);

/// Collision footprint: bounding half-extents and whether an overlap
/// destroys the entity.
#[derive(Clone, Copy, Debug)]
pub struct Collider {
    pub dimensions: Vec2,
    pub destroyable: bool,
}

/// Rate limiter for projectile spawning: fires only once `elapsed` has
/// reached `duration`, and firing resets `elapsed` to zero.
#[derive(Clone, Copy, Debug)]
pub struct Gun {
    pub duration: i64,
    pub elapsed: i64,
}

/// Behavioural category of an entity; exactly one per entity.
#[derive(Clone, Copy, Debug)]
pub enum Role {
    Player { number: u8 },
    Projectile,
    Star,
}

/// What the renderer draws for an entity: an opaque handle supplied by
/// the asset collaborator at spawn time, and the initial scale in
/// fixed-point thousandths.  The core stores and forwards it and never
/// reads into it.
#[derive(Clone, Copy, PartialEq, Eq, Structural, Debug)]
pub struct Visual {
    pub handle: u64,
    pub scale: i64,
}

/// The group of attributes shared by every entity that moves under
/// forces.
#[derive(Clone, Copy, Debug)]
pub struct PhysicsBundle {
    pub forces: Forces,
    pub acceleration: Acceleration,
    pub velocity: Velocity,
    pub mass: Mass,
}

impl Default for PhysicsBundle {
    fn default() -> (b: PhysicsBundle)
        ensures
            b.forces.thrust is None,
            b.forces.gravity is None,
            b.acceleration.0 == (Vec3 { x: 0, y: 0, z: 0 }),
            b.velocity.0 == (Vec3 { x: 0, y: 0, z: 0 }),
            b.mass.0 == SCALE,
    {
        PhysicsBundle {
            forces: Forces::none(),
            acceleration: Acceleration(Vec3::zero()),
            velocity: Velocity(Vec3::zero()),
            mass: Mass::default(),
        }
    }
}

/// An entity: a stable handle, a role tag, and a sparse set of optional
/// attributes.  `heading` is the orientation angle in fixed-point
/// radians; `marked` flags the entity for removal by the collision
/// detector.
#[derive(Clone, Copy, Debug)]
pub struct Entity {
    pub id: u64,
    pub role: Role,
    pub visual: Visual,
    pub position: Vec3,
    pub heading: i64,
    pub mass: Option<Mass>,
    pub forces: Option<Forces>,
    pub acceleration: Option<Acceleration>,
    pub velocity: Option<Velocity>,
    pub collider: Option<Collider>,
    pub gun: Option<Gun>,
    pub marked: bool,
}

pub open spec fn wf_gun(g: Gun) -> bool {
    1 <= g.duration <= MAX_SCALAR && 0 <= g.elapsed <= g.duration
}

pub open spec fn wf_collider(c: Collider) -> bool {
    0 < c.dimensions.x <= MAX_SCALAR && 0 < c.dimensions.y <= MAX_SCALAR
}

pub open spec fn wf_role(r: Role) -> bool {
    r matches Role::Player { number } ==> 1 <= number <= 2
}

pub open spec fn wf_entity(e: Entity) -> bool {
    &&& wf_vec3(e.position)
    &&& in_scalar(e.heading as int)
    &&& wf_role(e.role)
    &&& (e.mass matches Some(m) ==> 1 <= m.0 <= MAX_SCALAR)
    &&& (e.forces matches Some(f) ==> wf_forces(f))
    &&& (e.acceleration matches Some(a) ==> wf_vec3(a.0))
    &&& (e.velocity matches Some(v) ==> wf_vec3(v.0))
    &&& (e.collider matches Some(c) ==> wf_collider(c))
    &&& (e.gun matches Some(g) ==> wf_gun(g))
}

/// The entity store, mutated in place by each frame stage in sequence.
pub struct World {
    pub entities: Vec<Entity>,
    pub next_id: u64,
}

pub open spec fn wf_world(w: World) -> bool {
    &&& forall|i: int|
        0 <= i < w.entities@.len() ==> wf_entity(#[trigger] w.entities@[i])
    &&& forall|i: int|
        0 <= i < w.entities@.len() ==> (#[trigger] w.entities@[i].id) < w.next_id
    &&& forall|i: int, j: int|
        0 <= i < w.entities@.len() && 0 <= j < w.entities@.len() && i != j ==> (
        #[trigger] w.entities@[i].id) != (#[trigger] w.entities@[j].id)
}

impl World {
    /// An empty entity store.
    pub fn new() -> (w: World)
        ensures
            w.entities@.len() == 0,
            w.next_id == 0,
            wf_world(w),
    {
        World { entities: Vec::new(), next_id: 0 }
    }

    /// Adds an entity under the next free handle.
    pub fn spawn(&mut self, e: Entity)
        requires
            wf_world(*old(self)),
            old(self).next_id < u64::MAX,
            wf_entity(e),
            e.id == old(self).next_id,
        ensures
            final(self).entities@ == old(self).entities@.push(e),
            final(self).next_id == old(self).next_id + 1,
            wf_world(*final(self)),
    {
        self.entities.push(e);
        self.next_id = self.next_id + 1;
        proof {
            let post = self.entities@;
            assert forall|i: int| 0 <= i < post.len() implies wf_entity(#[trigger] post[i])
                && post[i].id < self.next_id by {
                if i < post.len() - 1 {
                    assert(post[i] == old(self).entities@[i]);
                }
            }
            assert forall|i: int, j: int|
                0 <= i < post.len() && 0 <= j < post.len() && i != j implies (
            #[trigger] post[i].id) != (#[trigger] post[j].id) by {
                if i < post.len() - 1 && j < post.len() - 1 {
                    assert(post[i] == old(self).entities@[i]);
                    assert(post[j] == old(self).entities@[j]);
                }
            }
        }
    }

    /// Removes every entity flagged for removal by the collision
    /// detector, keeping the others in order.
    pub fn despawn_marked(&mut self)
        ensures
            final(self).entities@ == old(self).entities@.filter(|e: Entity| !e.marked),
            final(self).next_id == old(self).next_id,
            wf_world(*old(self)) ==> wf_world(*final(self)),
    {
        broadcast use vstd::seq_lib::group_filter_ensures;

        let ghost orig = self.entities@;
        let ghost keep_wf = wf_world(*self);
        let mut kept: Vec<Entity> = Vec::new();
        let mut i: usize = 0;
        while i < self.entities.len()
            invariant
                i <= self.entities@.len(),
                self.entities@ == orig,
                keep_wf ==> forall|k: int|
                    0 <= k < orig.len() ==> wf_entity(#[trigger] orig[k]),
                keep_wf ==> forall|k: int, l: int|
                    0 <= k < orig.len() && 0 <= l < orig.len() && k != l ==> (
                    #[trigger] orig[k].id) != (#[trigger] orig[l].id),
                kept@ == orig.take(i as int).filter(|e: Entity| !e.marked),
                keep_wf ==> forall|k: int|
                    0 <= k < kept@.len() ==> exists|j: int|
                        0 <= j < i && orig[j] == #[trigger] kept@[k],
                keep_wf ==> forall|k: int, l: int|
                    0 <= k < l < kept@.len() ==> (#[trigger] kept@[k].id) != (
                    #[trigger] kept@[l].id),
            decreases self.entities@.len() - i,
        {
            let e = self.entities[i];
            proof {
                assert(orig.take(i as int + 1) =~= orig.take(i as int).push(orig[i as int]));
                orig.take(i as int).lemma_filter_push(orig[i as int], |e: Entity| !e.marked);
            }
            if e.marked {
                proof {
                    if keep_wf {
                        assert forall|k: int| 0 <= k < kept@.len() implies exists|j: int|
                            0 <= j < i + 1 && orig[j] == #[trigger] kept@[k] by {
                            let j = choose|j: int| 0 <= j < i && orig[j] == #[trigger] kept@[k];
                            assert(0 <= j < i + 1 && orig[j] == kept@[k]);
                        }
                    }
                }
            } else {
                kept.push(e);
                proof {
                    if keep_wf {
                        assert forall|k: int| 0 <= k < kept@.len() implies exists|j: int|
                            0 <= j < i + 1 && orig[j] == #[trigger] kept@[k] by {
                            if k < kept@.len() - 1 {
                                let j = choose|j: int|
                                    0 <= j < i && orig[j] == #[trigger] kept@[k];
                                assert(0 <= j < i + 1 && orig[j] == kept@[k]);
                            } else {
                                assert(orig[i as int] == kept@[k]);
                            }
                        }
                        assert forall|k: int, l: int|
                            0 <= k < l < kept@.len() implies (#[trigger] kept@[k].id) != (
                        #[trigger] kept@[l].id) by {
                            if l == kept@.len() - 1 {
                                let j = choose|j: int|
                                    0 <= j < i && orig[j] == #[trigger] kept@[k];
                                assert(orig[j].id != orig[i as int].id);
                            }
                        }
                    }
                }
            }
            i = i + 1;
        }
        proof {
            assert(orig.take(orig.len() as int) =~= orig);
        }
        self.entities = kept;
        proof {
            if keep_wf {
                assert forall|k: int| 0 <= k < self.entities@.len() implies wf_entity(
                    #[trigger] self.entities@[k],
                ) && self.entities@[k].id < self.next_id by {
                    let j = choose|j: int|
                        0 <= j < orig.len() && orig[j] == self.entities@[k];
                    assert(wf_entity(orig[j]));
                }
                assert forall|k: int, l: int|
                    0 <= k < self.entities@.len() && 0 <= l < self.entities@.len() && k
                        != l implies (#[trigger] self.entities@[k].id) != (
                #[trigger] self.entities@[l].id) by {}
            }
        }
    }

    /// Tears down every session entity, for the external game-state
    /// transition out of the playing state.
    pub fn despawn_all(&mut self)
        ensures
            final(self).entities@.len() == 0,
            final(self).next_id == old(self).next_id,
            wf_world(*final(self)),
    {
        self.entities = Vec::new();
    }
}

} // verus!
