//! Player control and projectile spawning.
//!
//! `move_player` turns the heading from the rotation intent and writes
//! the thrust force; `shoot` ticks each gun's cooldown and spawns a
//! projectile ahead of the firer when the cooldown has elapsed and the
//! fire intent is active.
//!
//! Trigonometry is left to the caller: it passes each player's forward
//! unit vector, computed from the heading angle it reads back.

use vstd::prelude::*;

use crate::actions::{actions_ok, Actions, PlayerActions};
use crate::entity::{
    wf_entity, wf_world, Acceleration, Collider, Entity, ForceName, Forces, Gun, Mass,
    PhysicsBundle, Role, Velocity, Visual, World,
};
use crate::fixed::{fmul, fx_mul, in_scalar, MAX_SCALAR, SCALE};
use crate::physics::lemma_wf_pointwise;
use crate::vector::{to_v3, v3i, v3i_in_scalar, vadd, vscale, V3i, Vec2, Vec3};

verus! {

/// Thrust force while the thrust intent is active.
pub const THRUST_FORCE: i64 = 200_000;

/// Heading change per second of held rotation.
pub const ROTATION_SPEED: i64 = 2_000;

/// Gun cooldown duration.
pub const GUN_COOLDOWN: i64 = 250;

/// Half-extent of a player's collision box.
pub const PLAYER_HALF_EXTENT: i64 = 51_200;

/// Half-extent of a projectile's collision box.
pub const PROJECTILE_HALF_EXTENT: i64 = 5_000;

/// Mass of a projectile: a tenth of a unit.
pub const PROJECTILE_MASS: i64 = 100;

/// Initial projectile speed along the firer's forward axis.
pub const PROJECTILE_SPEED: i64 = 500_000;

/// Distance ahead of the firer at which a projectile appears.
pub const MUZZLE_OFFSET: i64 = 50_000;

/// A forward vector is a unit vector in the play plane.
pub open spec fn unit_vec(v: Vec3) -> bool {
    -SCALE <= v.x <= SCALE && -SCALE <= v.y <= SCALE && v.z == 0
}

/// The intents addressed to the given player.
pub open spec fn actions_for(a: Actions, number: u8) -> PlayerActions {
    if number == 2 {
        a.p2
    } else {
        a.p1
    }
}

/// The forward vector of the given player.
pub open spec fn forward_for(number: u8, forward_1: Vec3, forward_2: Vec3) -> Vec3 {
    if number == 2 {
        forward_2
    } else {
        forward_1
    }
}

pub open spec fn player_number(e: Entity) -> u8 {
    match e.role {
        Role::Player { number } => number,
        _ => 0,
    }
}

/// A player entity: full physics bundle, a destroyable collider, and a
/// gun whose one-shot cooldown starts unelapsed, so the first shot waits
/// a full cooldown.
pub open spec fn player_entity(position: Vec3, number: u8, id: u64, visual: Visual) -> Entity {
    Entity {
        id,
        role: Role::Player { number },
        visual,
        position,
        heading: 0,
        mass: Some(Mass(SCALE)),
        forces: Some(Forces { thrust: None, gravity: None }),
        acceleration: Some(Acceleration(Vec3 { x: 0, y: 0, z: 0 })),
        velocity: Some(Velocity(Vec3 { x: 0, y: 0, z: 0 })),
        collider: Some(
            Collider {
                dimensions: Vec2 { x: PLAYER_HALF_EXTENT, y: PLAYER_HALF_EXTENT },
                destroyable: true,
            },
        ),
        gun: Some(Gun { duration: GUN_COOLDOWN, elapsed: 0 }),
        marked: false,
    }
}

/// Builds a player entity at the given position, carrying the visual
/// the asset collaborator supplies.
pub fn create_player(position: Vec3, player_number: u8, id: u64, visual: Visual) -> (e: Entity)
    ensures
        e == player_entity(position, player_number, id, visual),
{
    let bundle = PhysicsBundle::default();
    Entity {
        id,
        role: Role::Player { number: player_number },
        visual,
        position,
        heading: 0,
        mass: Some(bundle.mass),
        forces: Some(bundle.forces),
        acceleration: Some(bundle.acceleration),
        velocity: Some(bundle.velocity),
        collider: Some(
            Collider {
                dimensions: Vec2 { x: PLAYER_HALF_EXTENT, y: PLAYER_HALF_EXTENT },
                destroyable: true,
            },
        ),
        gun: Some(Gun { duration: GUN_COOLDOWN, elapsed: 0 }),
        marked: false,
    }
}

/// Spawns player one on the left edge of the play field.
pub fn spawn_player_1(world: &mut World, visual: Visual)
    requires
        wf_world(*old(world)),
        old(world).next_id < u64::MAX,
    ensures
        final(world).entities@ == old(world).entities@.push(
            player_entity(Vec3 { x: -600_000i64, y: 0, z: 0 }, 1, old(world).next_id, visual),
        ),
        final(world).next_id == old(world).next_id + 1,
        wf_world(*final(world)),
{
    let id = world.next_id;
    let e = create_player(Vec3 { x: -600_000, y: 0, z: 0 }, 1, id, visual);
    world.spawn(e);
}

/// Spawns player two on the right edge of the play field.
pub fn spawn_player_2(world: &mut World, visual: Visual)
    requires
        wf_world(*old(world)),
        old(world).next_id < u64::MAX,
    ensures
        final(world).entities@ == old(world).entities@.push(
            player_entity(Vec3 { x: 600_000i64, y: 0, z: 0 }, 2, old(world).next_id, visual),
        ),
        final(world).next_id == old(world).next_id + 1,
        wf_world(*final(world)),
{
    let id = world.next_id;
    let e = create_player(Vec3 { x: 600_000, y: 0, z: 0 }, 2, id, visual);
    world.spawn(e);
}

/// A projectile entity: light, fast along the firer's forward axis, and
/// destroyed by any collision.
pub open spec fn projectile_entity(position: Vec3, up: Vec3, id: u64, visual: Visual) -> Entity {
    Entity {
        id,
        role: Role::Projectile,
        visual,
        position,
        heading: 0,
        mass: Some(Mass(PROJECTILE_MASS)),
        forces: Some(Forces { thrust: None, gravity: None }),
        acceleration: Some(Acceleration(Vec3 { x: 0, y: 0, z: 0 })),
        velocity: Some(Velocity(to_v3(vscale(v3i(up), PROJECTILE_SPEED as int)))),
        collider: Some(
            Collider {
                dimensions: Vec2 { x: PROJECTILE_HALF_EXTENT, y: PROJECTILE_HALF_EXTENT },
                destroyable: true,
            },
        ),
        gun: None,
        marked: false,
    }
}

/// Builds a projectile at the given position with its initial velocity
/// along `up`.
pub fn create_projectile(position: Vec3, up: Vec3, id: u64, visual: Visual) -> (e: Entity)
    requires
        unit_vec(up),
    ensures
        e == projectile_entity(position, up, id, visual),
{
    let velocity = up.scaled(PROJECTILE_SPEED);
    proof {
        let gv = vscale(v3i(up), PROJECTILE_SPEED as int);
        assert(velocity.x == gv.x as i64 && velocity.y == gv.y as i64 && velocity.z
            == gv.z as i64);
        assert(velocity == to_v3(gv));
    }
    Entity {
        id,
        role: Role::Projectile,
        visual,
        position,
        heading: 0,
        mass: Some(Mass(PROJECTILE_MASS)),
        forces: Some(Forces { thrust: None, gravity: None }),
        acceleration: Some(Acceleration(Vec3 { x: 0, y: 0, z: 0 })),
        velocity: Some(Velocity(velocity)),
        collider: Some(
            Collider {
                dimensions: Vec2 { x: PROJECTILE_HALF_EXTENT, y: PROJECTILE_HALF_EXTENT },
                destroyable: true,
            },
        ),
        gun: None,
        marked: false,
    }
}

// ---------------------------------------------------------------------
// Movement.
// ---------------------------------------------------------------------
/// One player's movement step: the heading turns by the rotation intent
/// and the thrust force is written for this frame (zero when the thrust
/// intent is off, so a stale thrust never persists).
pub open spec fn move_step(e: Entity, a: Actions, forward_1: Vec3, forward_2: Vec3, dt: int) -> Entity {
    if e.role is Player && e.forces is Some {
        let pa = actions_for(a, player_number(e));
        let fwd = forward_for(player_number(e), forward_1, forward_2);
        let h: int = if pa.rotation is Some {
            let nh = e.heading + fmul(fmul(pa.rotation->0 as int, ROTATION_SPEED as int), dt);
            if in_scalar(nh) {
                nh
            } else {
                e.heading as int
            }
        } else {
            e.heading as int
        };
        let tf: int = if pa.thrust {
            THRUST_FORCE as int
        } else {
            0
        };
        Entity {
            heading: h as i64,
            forces: Some(
                Forces {
                    thrust: Some(to_v3(vscale(v3i(fwd), tf))),
                    gravity: (e.forces->0).gravity,
                },
            ),
            ..e
        }
    } else {
        e
    }
}

/// Rotates each player by its rotation intent and writes its thrust
/// force.  The forward vectors are the players' current forward axes,
/// before this frame's rotation, as the renderer shows them.
pub fn move_player(world: &mut World, actions: &Actions, forward_1: Vec3, forward_2: Vec3, dt: i64)
    requires
        wf_world(*old(world)),
        actions_ok(*actions),
        unit_vec(forward_1),
        unit_vec(forward_2),
        0 <= dt <= MAX_SCALAR,
    ensures
        final(world).entities@.len() == old(world).entities@.len(),
        forall|i: int|
            0 <= i < old(world).entities@.len() ==> final(world).entities@[i] == move_step(
                #[trigger] old(world).entities@[i],
                *actions,
                forward_1,
                forward_2,
                dt as int,
            ),
        final(world).next_id == old(world).next_id,
        wf_world(*final(world)),
{
    let ghost orig = world.entities@;
    let ghost nid = world.next_id;
    let n = world.entities.len();
    let mut i: usize = 0;
    while i < n
        invariant
            i <= n,
            n == world.entities@.len(),
            n == orig.len(),
            world.next_id == nid,
            actions_ok(*actions),
            unit_vec(forward_1),
            unit_vec(forward_2),
            0 <= dt <= MAX_SCALAR,
            forall|k: int| 0 <= k < n ==> wf_entity(#[trigger] orig[k]),
            forall|k: int|
                0 <= k < i ==> world.entities@[k] == move_step(
                    #[trigger] orig[k],
                    *actions,
                    forward_1,
                    forward_2,
                    dt as int,
                ),
            forall|k: int| 0 <= k < i ==> wf_entity(#[trigger] world.entities@[k]),
            forall|k: int| i <= k < n ==> world.entities@[k] == #[trigger] orig[k],
        decreases n - i,
    {
        let e = world.entities[i];
        let mut updated = e;
        let is_player = matches!(e.role, Role::Player { .. });
        if is_player && e.forces.is_some() {
            let number = match e.role {
                Role::Player { number } => number,
                _ => 0,
            };
            let pa = if number == 2 {
                actions.p2
            } else {
                actions.p1
            };
            let fwd = if number == 2 {
                forward_2
            } else {
                forward_1
            };
            if let Some(r) = pa.rotation {
                let dh = fx_mul(fx_mul(r, ROTATION_SPEED), dt);
                let nh = e.heading + dh;
                if -MAX_SCALAR <= nh && nh <= MAX_SCALAR {
                    updated.heading = nh;
                }
            }
            let tf = if pa.thrust {
                THRUST_FORCE
            } else {
                0
            };
            let tvec = fwd.scaled(tf);
            proof {
                let gv = vscale(v3i(fwd), tf as int);
                assert(tvec.x == gv.x as i64 && tvec.y == gv.y as i64 && tvec.z == gv.z as i64);
                assert(tvec == to_v3(gv));
            }
            let mut fs = e.forces.unwrap();
            fs.set_force(ForceName::Thrust, tvec);
            updated.forces = Some(fs);
        }
        proof {
            assert(updated == move_step(orig[i as int], *actions, forward_1, forward_2, dt as int));
            assert(wf_entity(updated));
        }
        world.entities.set(i, updated);
        i = i + 1;
    }
    proof {
        assert forall|k: int| 0 <= k < n implies world.entities@[k].id == orig[k].id by {
            assert(world.entities@[k] == move_step(orig[k], *actions, forward_1, forward_2, dt as int));
        }
        lemma_wf_pointwise(*old(world), *world);
    }
}

// ---------------------------------------------------------------------
// Shooting.
// ---------------------------------------------------------------------
/// Whether the gun can fire after this frame's tick.
pub open spec fn gun_ready(g: Gun, dt: int) -> bool {
    g.elapsed + dt >= g.duration
}

/// The gun after a tick of `dt` without firing: elapsed time accumulates
/// up to the duration.
pub open spec fn tick_gun(g: Gun, dt: int) -> Gun {
    if g.elapsed + dt >= g.duration {
        Gun { duration: g.duration, elapsed: g.duration }
    } else {
        Gun { duration: g.duration, elapsed: (g.elapsed + dt) as i64 }
    }
}

/// Where a projectile fired by `e` appears: ahead of the firer by the
/// muzzle offset.
pub open spec fn spawn_position(e: Entity, fwd: Vec3) -> V3i {
    vadd(v3i(e.position), vscale(v3i(fwd), MUZZLE_OFFSET as int))
}

/// Whether `e` fires this frame: it is a player with a gun whose
/// cooldown has elapsed, its fire intent is active, and the spawn
/// position is representable.
pub open spec fn fires(e: Entity, a: Actions, forward_1: Vec3, forward_2: Vec3, dt: int) -> bool {
    &&& e.role is Player
    &&& e.gun is Some
    &&& gun_ready(e.gun->0, dt)
    &&& actions_for(a, player_number(e)).fire
    &&& v3i_in_scalar(spawn_position(e, forward_for(player_number(e), forward_1, forward_2)))
}

/// One entity's gun step: a firing gun resets its cooldown, any other
/// gun ticks.
pub open spec fn shoot_step(e: Entity, a: Actions, forward_1: Vec3, forward_2: Vec3, dt: int) -> Entity {
    if e.role is Player && e.gun is Some {
        if fires(e, a, forward_1, forward_2, dt) {
            Entity { gun: Some(Gun { duration: (e.gun->0).duration, elapsed: 0 }), ..e }
        } else {
            Entity { gun: Some(tick_gun(e.gun->0, dt)), ..e }
        }
    } else {
        e
    }
}

/// The projectile an entity fires: ahead of it along its forward axis,
/// under the given handle, carrying the given visual.
pub open spec fn spawned_by(
    e: Entity,
    forward_1: Vec3,
    forward_2: Vec3,
    id: u64,
    visual: Visual,
) -> Entity {
    let fwd = forward_for(player_number(e), forward_1, forward_2);
    projectile_entity(to_v3(spawn_position(e, fwd)), fwd, id, visual)
}

/// The projectiles spawned by one pass over the store, in store order,
/// under consecutive handles starting at `base`, all carrying the
/// frame's projectile visual.
pub open spec fn spawned_projectiles(
    s: Seq<Entity>,
    a: Actions,
    forward_1: Vec3,
    forward_2: Vec3,
    dt: int,
    base: int,
    visual: Visual,
) -> Seq<Entity>
    decreases s.len(),
{
    if s.len() == 0 {
        Seq::empty()
    } else {
        let e = s[0];
        if fires(e, a, forward_1, forward_2, dt) {
            seq![spawned_by(e, forward_1, forward_2, base as u64, visual)]
                + spawned_projectiles(s.skip(1), a, forward_1, forward_2, dt, base + 1, visual)
        } else {
            spawned_projectiles(s.skip(1), a, forward_1, forward_2, dt, base, visual)
        }
    }
}

/// Appending an entity to the pass appends its projectile, if it fires,
/// after everyone else's.
proof fn lemma_spawned_push(
    s: Seq<Entity>,
    e: Entity,
    a: Actions,
    forward_1: Vec3,
    forward_2: Vec3,
    dt: int,
    base: int,
    visual: Visual,
)
    ensures
        spawned_projectiles(s.push(e), a, forward_1, forward_2, dt, base, visual)
            == spawned_projectiles(s, a, forward_1, forward_2, dt, base, visual) + (if fires(
            e,
            a,
            forward_1,
            forward_2,
            dt,
        ) {
            seq![
                spawned_by(
                    e,
                    forward_1,
                    forward_2,
                    (base + spawned_projectiles(
                        s,
                        a,
                        forward_1,
                        forward_2,
                        dt,
                        base,
                        visual,
                    ).len()) as u64,
                    visual,
                ),
            ]
        } else {
            Seq::<Entity>::empty()
        }),
    decreases s.len(),
{
    reveal_with_fuel(spawned_projectiles, 3);
    let whole = spawned_projectiles(s.push(e), a, forward_1, forward_2, dt, base, visual);
    let front = spawned_projectiles(s, a, forward_1, forward_2, dt, base, visual);
    let tail = (if fires(e, a, forward_1, forward_2, dt) {
        seq![spawned_by(e, forward_1, forward_2, (base + front.len()) as u64, visual)]
    } else {
        Seq::<Entity>::empty()
    });
    if s.len() == 0 {
        assert(s.push(e)[0] == e);
        assert(s.push(e).skip(1) =~= Seq::<Entity>::empty());
        assert(whole =~= front + tail);
    } else {
        assert(s.push(e)[0] == s[0]);
        assert(s.push(e).skip(1) =~= s.skip(1).push(e));
        if fires(s[0], a, forward_1, forward_2, dt) {
            lemma_spawned_push(s.skip(1), e, a, forward_1, forward_2, dt, base + 1, visual);
            assert(whole =~= front + tail);
        } else {
            lemma_spawned_push(s.skip(1), e, a, forward_1, forward_2, dt, base, visual);
            assert(whole =~= front + tail);
        }
    }
}

/// Ticks every player's gun and, where the cooldown has elapsed and the
/// fire intent is active, spawns a projectile ahead of the firer and
/// resets the cooldown.
pub fn shoot(
    world: &mut World,
    actions: &Actions,
    forward_1: Vec3,
    forward_2: Vec3,
    projectile_visual: Visual,
    dt: i64,
)
    requires
        wf_world(*old(world)),
        actions_ok(*actions),
        unit_vec(forward_1),
        unit_vec(forward_2),
        0 <= dt <= MAX_SCALAR,
        old(world).next_id + old(world).entities@.len() <= u64::MAX,
    ensures
        old(world).entities@.len() <= final(world).entities@.len(),
        forall|i: int|
            0 <= i < old(world).entities@.len() ==> final(world).entities@[i] == shoot_step(
                #[trigger] old(world).entities@[i],
                *actions,
                forward_1,
                forward_2,
                dt as int,
            ),
        final(world).entities@.skip(old(world).entities@.len() as int) == spawned_projectiles(
            old(world).entities@,
            *actions,
            forward_1,
            forward_2,
            dt as int,
            old(world).next_id as int,
            projectile_visual,
        ),
        final(world).next_id == old(world).next_id + spawned_projectiles(
            old(world).entities@,
            *actions,
            forward_1,
            forward_2,
            dt as int,
            old(world).next_id as int,
            projectile_visual,
        ).len(),
        wf_world(*final(world)),
{
    let ghost orig = world.entities@;
    let ghost nid = world.next_id;
    let n = world.entities.len();
    let mut i: usize = 0;
    while i < n
        invariant
            i <= n,
            n == orig.len(),
            n <= world.entities@.len(),
            wf_world(*world),
            actions_ok(*actions),
            unit_vec(forward_1),
            unit_vec(forward_2),
            0 <= dt <= MAX_SCALAR,
            nid + n <= u64::MAX,
            forall|k: int| 0 <= k < n ==> wf_entity(#[trigger] orig[k]),
            forall|k: int|
                0 <= k < i ==> world.entities@[k] == shoot_step(
                    #[trigger] orig[k],
                    *actions,
                    forward_1,
                    forward_2,
                    dt as int,
                ),
            forall|k: int| i <= k < n ==> world.entities@[k] == #[trigger] orig[k],
            world.entities@.skip(n as int) == spawned_projectiles(
                orig.take(i as int),
                *actions,
                forward_1,
                forward_2,
                dt as int,
                nid as int,
                projectile_visual,
            ),
            world.entities@.len() == n + spawned_projectiles(
                orig.take(i as int),
                *actions,
                forward_1,
                forward_2,
                dt as int,
                nid as int,
                projectile_visual,
            ).len(),
            world.next_id == nid + spawned_projectiles(
                orig.take(i as int),
                *actions,
                forward_1,
                forward_2,
                dt as int,
                nid as int,
                projectile_visual,
            ).len(),
            spawned_projectiles(
                orig.take(i as int),
                *actions,
                forward_1,
                forward_2,
                dt as int,
                nid as int,
                projectile_visual,
            ).len() <= i,
        decreases n - i,
    {
        let ghost pre = spawned_projectiles(
            orig.take(i as int),
            *actions,
            forward_1,
            forward_2,
            dt as int,
            nid as int,
            projectile_visual,
        );
        proof {
            assert(orig.take(i as int + 1) =~= orig.take(i as int).push(orig[i as int]));
            lemma_spawned_push(
                orig.take(i as int),
                orig[i as int],
                *actions,
                forward_1,
                forward_2,
                dt as int,
                nid as int,
                projectile_visual,
            );
        }
        let e = world.entities[i];
        let is_player = matches!(e.role, Role::Player { .. });
        if is_player && e.gun.is_some() {
            let number = match e.role {
                Role::Player { number } => number,
                _ => 0,
            };
            let pa = if number == 2 {
                actions.p2
            } else {
                actions.p1
            };
            let fwd = if number == 2 {
                forward_2
            } else {
                forward_1
            };
            let g = e.gun.unwrap();
            let ready = g.elapsed + dt >= g.duration;
            let offset = fwd.scaled(MUZZLE_OFFSET);
            let px = e.position.x + offset.x;
            let py = e.position.y + offset.y;
            let pz = e.position.z + offset.z;
            let fits = -MAX_SCALAR <= px && px <= MAX_SCALAR && -MAX_SCALAR <= py && py
                <= MAX_SCALAR && -MAX_SCALAR <= pz && pz <= MAX_SCALAR;
            proof {
                assert(v3i(offset) == vscale(v3i(fwd), MUZZLE_OFFSET as int));
                assert(px == spawn_position(orig[i as int], fwd).x);
                assert(py == spawn_position(orig[i as int], fwd).y);
                assert(pz == spawn_position(orig[i as int], fwd).z);
            }
            if ready && pa.fire && fits {
                let mut updated = e;
                updated.gun = Some(Gun { duration: g.duration, elapsed: 0 });
                proof {
                    assert(updated == shoot_step(
                        orig[i as int],
                        *actions,
                        forward_1,
                        forward_2,
                        dt as int,
                    ));
                    assert(wf_entity(updated));
                }
                let ghost w0 = *world;
                world.entities.set(i, updated);
                proof {
                    assert forall|k: int| 0 <= k < w0.entities@.len() implies wf_entity(
                        #[trigger] world.entities@[k],
                    ) && world.entities@[k].id == w0.entities@[k].id by {
                        if k != i {
                            assert(world.entities@[k] == w0.entities@[k]);
                        }
                    }
                    lemma_wf_pointwise(w0, *world);
                    assert(world.entities@.skip(n as int) =~= w0.entities@.skip(n as int));
                }
                let position = Vec3 { x: px, y: py, z: pz };
                let proj = create_projectile(position, fwd, world.next_id, projectile_visual);
                proof {
                    assert(position == to_v3(spawn_position(orig[i as int], fwd)));
                    assert(wf_entity(proj));
                }
                let ghost w1 = *world;
                world.spawn(proj);
                proof {
                    assert(world.entities@.skip(n as int) =~= w1.entities@.skip(n as int).push(
                        proj,
                    ));
                    assert(proj == projectile_entity(
                        to_v3(spawn_position(orig[i as int], fwd)),
                        fwd,
                        (nid + pre.len()) as u64,
                        projectile_visual,
                    ));
                    assert(world.entities@.skip(n as int) =~= spawned_projectiles(
                        orig.take(i as int + 1),
                        *actions,
                        forward_1,
                        forward_2,
                        dt as int,
                        nid as int,
                        projectile_visual,
                    ));
                }
            } else {
                let mut updated = e;
                let new_elapsed = if ready {
                    g.duration
                } else {
                    g.elapsed + dt
                };
                updated.gun = Some(Gun { duration: g.duration, elapsed: new_elapsed });
                proof {
                    assert(updated == shoot_step(
                        orig[i as int],
                        *actions,
                        forward_1,
                        forward_2,
                        dt as int,
                    ));
                    assert(wf_entity(updated));
                }
                let ghost w0 = *world;
                world.entities.set(i, updated);
                proof {
                    assert forall|k: int| 0 <= k < w0.entities@.len() implies wf_entity(
                        #[trigger] world.entities@[k],
                    ) && world.entities@[k].id == w0.entities@[k].id by {
                        if k != i {
                            assert(world.entities@[k] == w0.entities@[k]);
                        }
                    }
                    lemma_wf_pointwise(w0, *world);
                    assert(world.entities@.skip(n as int) =~= w0.entities@.skip(n as int));
                }
            }
        }
        i = i + 1;
    }
    proof {
        assert(orig.take(n as int) =~= orig);
    }
}

} // verus!
