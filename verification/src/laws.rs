//! Laws of the physics core.
//!
//! Each proof function here states a property of the frame systems that
//! holds for every input its `requires` admits, over the same spec
//! functions the systems' own contracts use.

use vstd::prelude::*;

use crate::actions::Actions;
use crate::entity::{net_of, wf_entity, wf_gun, wf_world, Entity, Gun, Visual, World};
use crate::fixed::{fdiv, fmul, tdiv, MAX_SCALAR, SCALE};
use crate::physics::{
    accel_of, accel_step, collision_step, forces_step, grav_d2f, grav_force_v, grav_mag,
    has_force_attrs, velocity_step,
};
use crate::player::{
    fires, forward_for, gun_ready, player_number, shoot_step, spawned_projectiles, tick_gun,
};
use crate::vector::{v3i, v3i_in_scalar, v3i_zero, vadd, vscale, V3i, Vec3};

verus! {

proof fn lemma_tdiv_sign(a: int, b: int)
    requires
        b >= 1,
    ensures
        a >= 0 ==> tdiv(a, b) >= 0,
        a <= 0 ==> tdiv(a, b) <= 0,
{
    if a >= 0 {
        vstd::arithmetic::div_mod::lemma_div_basics_4(a, b);
    } else {
        vstd::arithmetic::div_mod::lemma_div_basics_4(-a, b);
    }
}

/// An entity with zero net force keeps its velocity through the
/// integration step: the force summation yields zero acceleration and
/// the velocity update adds nothing.
pub proof fn lemma_zero_net_force_keeps_velocity(e: Entity, dt: i64)
    requires
        wf_entity(e),
        has_force_attrs(e),
        e.velocity is Some,
        net_of(e.forces->0) == v3i_zero(),
        0 <= dt <= MAX_SCALAR,
    ensures
        accel_step(forces_step(e), dt as int).velocity == e.velocity,
{
    let m = (e.mass->0).0 as int;
    vstd::arithmetic::div_mod::lemma_div_basics(m);
    assert(accel_of(e) == (V3i { x: 0, y: 0, z: 0 }));
    let e1 = forces_step(e);
    assert(e1.velocity == e.velocity);
    assert((e1.acceleration->0).0 == (Vec3 { x: 0, y: 0, z: 0 }));
    vstd::arithmetic::div_mod::lemma_div_basics(SCALE as int);
    let v = (e.velocity->0).0;
    assert(vadd(v3i(v), vscale(v3i((e1.acceleration->0).0), dt as int)) == v3i(v));
    assert(accel_step(e1, dt as int).velocity == e.velocity);
}

/// One integration step with net force `F`, mass `m` and timestep `dt`
/// sets `a = F/m`, then `v' = v + a*dt`, then `p' = p + v'*dt` — the
/// position update uses the already-updated velocity.
pub proof fn lemma_integration_step(e: Entity, dt: i64)
    requires
        wf_entity(e),
        has_force_attrs(e),
        e.velocity is Some,
        0 <= dt <= MAX_SCALAR,
        v3i_in_scalar(accel_of(e)),
        v3i_in_scalar(vadd(v3i((e.velocity->0).0), vscale(accel_of(e), dt as int))),
        v3i_in_scalar(
            vadd(
                v3i(e.position),
                vscale(vadd(v3i((e.velocity->0).0), vscale(accel_of(e), dt as int)), dt as int),
            ),
        ),
    ensures
        v3i(
            (accel_step(forces_step(e), dt as int).acceleration->0).0,
        ) == accel_of(e),
        v3i(
            (accel_step(forces_step(e), dt as int).velocity->0).0,
        ) == vadd(v3i((e.velocity->0).0), vscale(accel_of(e), dt as int)),
        v3i(
            velocity_step(accel_step(forces_step(e), dt as int), dt as int).position,
        ) == vadd(
            v3i(e.position),
            vscale(vadd(v3i((e.velocity->0).0), vscale(accel_of(e), dt as int)), dt as int),
        ),
{
    let e1 = forces_step(e);
    assert(v3i((e1.acceleration->0).0) == accel_of(e));
    let e2 = accel_step(e1, dt as int);
    assert(v3i((e2.velocity->0).0) == vadd(v3i((e.velocity->0).0), vscale(accel_of(e), dt as int)));
    let e3 = velocity_step(e2, dt as int);
    assert(v3i(e3.position) == vadd(v3i(e.position), vscale(v3i((e2.velocity->0).0), dt as int)));
}

/// The gravity magnitude is monotonically non-increasing in the squared
/// distance: the inverse-square law, under fixed-point truncation.
pub proof fn lemma_gravity_inverse_square(m: int, d2a: int, d2b: int)
    requires
        0 <= m,
        0 <= d2a <= d2b,
    ensures
        grav_mag(m, d2b) <= grav_mag(m, d2a),
{
    let ya = grav_d2f(d2a);
    let yb = grav_d2f(d2b);
    assert(1 <= ya <= yb);
    vstd::arithmetic::div_mod::lemma_div_is_ordered_by_denominator(m * SCALE, ya, yb);
}

/// The gravitational force points from the attracted entity toward the
/// star: each component carries the sign of the direction to the star.
pub proof fn lemma_gravity_points_toward_star(m: int, sp: Vec3, p: Vec3)
    requires
        0 <= m,
    ensures
        sp.x - p.x >= 0 ==> grav_force_v(m, sp, p).x >= 0,
        sp.x - p.x <= 0 ==> grav_force_v(m, sp, p).x <= 0,
        sp.y - p.y >= 0 ==> grav_force_v(m, sp, p).y >= 0,
        sp.y - p.y <= 0 ==> grav_force_v(m, sp, p).y <= 0,
        sp.z - p.z >= 0 ==> grav_force_v(m, sp, p).z >= 0,
        sp.z - p.z <= 0 ==> grav_force_v(m, sp, p).z <= 0,
{
    let dir = V3i { x: sp.x - p.x, y: sp.y - p.y, z: sp.z - p.z };
    let d2 = fmul(dir.x, dir.x) + fmul(dir.y, dir.y) + fmul(dir.z, dir.z);
    let mag = grav_mag(m, d2);
    let dist = crate::physics::grav_dist(d2);
    assert(dist >= 1);
    lemma_tdiv_sign(m * SCALE, grav_d2f(d2));
    assert(mag >= 0);
    lemma_component_sign(dir.x, dist, mag);
    lemma_component_sign(dir.y, dist, mag);
    lemma_component_sign(dir.z, dist, mag);
}

proof fn lemma_component_sign(d: int, dist: int, mag: int)
    requires
        dist >= 1,
        mag >= 0,
    ensures
        d >= 0 ==> fmul(fdiv(d, dist), mag) >= 0,
        d <= 0 ==> fmul(fdiv(d, dist), mag) <= 0,
{
    assert(d >= 0 ==> d * SCALE >= 0) by (nonlinear_arith);
    assert(d <= 0 ==> d * SCALE <= 0) by (nonlinear_arith);
    lemma_tdiv_sign(d * SCALE, dist);
    let u = fdiv(d, dist);
    assert(u >= 0 ==> u * mag >= 0) by (nonlinear_arith)
        requires
            mag >= 0,
    ;
    assert(u <= 0 ==> u * mag <= 0) by (nonlinear_arith)
        requires
            mag >= 0,
    ;
    lemma_tdiv_sign(u * mag, SCALE as int);
}

/// A non-destroyable collider is never removed by collision: the
/// collision scan leaves it unmarked, whatever it overlaps, and the
/// sweep that follows keeps every unmarked entity.
pub proof fn lemma_star_never_removed(w: World, marked: Seq<Entity>, i: int)
    requires
        wf_world(w),
        0 <= i < w.entities@.len(),
        w.entities@[i].collider is Some,
        !(w.entities@[i].collider->0).destroyable,
        !w.entities@[i].marked,
        marked.len() == w.entities@.len(),
        forall|j: int| 0 <= j < marked.len() ==> marked[j] == collision_step(w.entities@, j),
    ensures
        collision_step(w.entities@, i) == w.entities@[i],
        marked.filter(|e: Entity| !e.marked).contains(w.entities@[i]),
{
    broadcast use vstd::seq_lib::group_filter_ensures;

    assert(marked[i] == w.entities@[i]);
    assert(marked.filter(|e: Entity| !e.marked).contains(marked[i]));
}

/// Gun cooldown: right after firing, a fire request before the cooldown
/// duration `T` has elapsed does not make the gun ready; a request at or
/// after `T` does.
pub proof fn lemma_gun_cooldown(g: Gun, t: i64)
    requires
        wf_gun(g),
        0 <= t,
    ensures
        0 <= t < g.duration ==> !gun_ready(Gun { duration: g.duration, elapsed: 0 }, t as int),
        t >= g.duration ==> gun_ready(Gun { duration: g.duration, elapsed: 0 }, t as int),
{
}

/// A firing player spawns exactly one projectile and its cooldown
/// restarts from zero; a player that does not fire spawns nothing and
/// its cooldown merely advances.
pub proof fn lemma_fire_spawns_one(
    e: Entity,
    a: Actions,
    forward_1: Vec3,
    forward_2: Vec3,
    dt: i64,
    base: int,
    visual: Visual,
)
    requires
        e.role is Player,
        e.gun is Some,
        0 <= dt,
    ensures
        fires(e, a, forward_1, forward_2, dt as int) ==> spawned_projectiles(
            seq![e],
            a,
            forward_1,
            forward_2,
            dt as int,
            base,
            visual,
        ).len() == 1 && (shoot_step(e, a, forward_1, forward_2, dt as int).gun->0).elapsed == 0,
        !fires(e, a, forward_1, forward_2, dt as int) ==> spawned_projectiles(
            seq![e],
            a,
            forward_1,
            forward_2,
            dt as int,
            base,
            visual,
        ).len() == 0 && shoot_step(e, a, forward_1, forward_2, dt as int).gun == Some(
            tick_gun(e.gun->0, dt as int),
        ),
{
    reveal_with_fuel(spawned_projectiles, 3);
    assert(seq![e].skip(1) =~= Seq::<Entity>::empty());
}

} // verus!
