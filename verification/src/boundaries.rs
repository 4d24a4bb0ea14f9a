//! World boundary wrapping.
//!
//! An entity leaving the play field on one side reappears on the
//! opposite side; each axis wraps independently.

use vstd::prelude::*;

use crate::entity::{wf_entity, wf_world, Entity, World};
use crate::physics::lemma_wf_pointwise;
use crate::vector::Vec3;

verus! {

/// Half-width of the play field.
pub const BOUNDARY_X: i64 = 725_000;

/// Half-height of the play field.
pub const BOUNDARY_Y: i64 = 350_000;

pub open spec fn wrap_coord(v: int, bound: int) -> int {
    if v > bound {
        -bound
    } else if v < -bound {
        bound
    } else {
        v
    }
}

/// One entity's boundary step: its position wrapped into the play field.
pub open spec fn wrap_step(e: Entity) -> Entity {
    Entity {
        position: Vec3 {
            x: wrap_coord(e.position.x as int, BOUNDARY_X as int) as i64,
            y: wrap_coord(e.position.y as int, BOUNDARY_Y as int) as i64,
            z: e.position.z,
        },
        ..e
    }
}

/// Wraps every entity's position into the play field.
pub fn wrap(world: &mut World)
    requires
        wf_world(*old(world)),
    ensures
        final(world).entities@.len() == old(world).entities@.len(),
        forall|i: int|
            0 <= i < old(world).entities@.len() ==> final(world).entities@[i] == wrap_step(
                #[trigger] old(world).entities@[i],
            ),
        final(world).next_id == old(world).next_id,
        wf_world(*final(world)),
{
    let ghost orig = world.entities@;
    let ghost nid = world.next_id;
    let n = world.entities.len();
    let mut i: usize = 0;
    while i < n
        invariant
            i <= n,
            n == world.entities@.len(),
            n == orig.len(),
            world.next_id == nid,
            forall|k: int| 0 <= k < n ==> wf_entity(#[trigger] orig[k]),
            forall|k: int| 0 <= k < i ==> world.entities@[k] == wrap_step(#[trigger] orig[k]),
            forall|k: int| i <= k < n ==> world.entities@[k] == #[trigger] orig[k],
        decreases n - i,
    {
        let e = world.entities[i];
        let mut updated = e;
        let mut px = e.position.x;
        let mut py = e.position.y;
        if px > BOUNDARY_X {
            px = -BOUNDARY_X;
        } else if px < -BOUNDARY_X {
            px = BOUNDARY_X;
        }
        if py > BOUNDARY_Y {
            py = -BOUNDARY_Y;
        } else if py < -BOUNDARY_Y {
            py = BOUNDARY_Y;
        }
        updated.position = Vec3 { x: px, y: py, z: e.position.z };
        proof {
            assert(updated == wrap_step(orig[i as int]));
        }
        world.entities.set(i, updated);
        i = i + 1;
    }
    proof {
        assert forall|k: int| 0 <= k < n implies wf_entity(#[trigger] world.entities@[k])
            && world.entities@[k].id == orig[k].id by {
            assert(world.entities@[k] == wrap_step(orig[k]));
        }
        lemma_wf_pointwise(*old(world), *world);
    }
}

} // verus!
