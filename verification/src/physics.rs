//! Frame systems of the physics core.
//!
//! Each frame runs, in order: gravity, force summation, acceleration,
//! velocity, collision detection.  Every system walks the whole entity
//! store and rewrites one attribute per entity; the contract of each
//! states the new store pointwise over the old one.
//!
//! Where a computed value would leave the representable scalar range the
//! entity keeps its old value for that frame: a single bad frame must not
//! abort the session.

use vstd::prelude::*;

use crate::entity::{
    net_of, wf_collider, wf_entity, wf_force_vec, wf_forces, wf_vec3, wf_world, Collider, Entity,
    ForceName, Forces, Mass, Role, Visual, World,
};
use crate::fixed::{fdiv, fmul, fx_div, fx_mul, fx_sqrt, isqrt, MAX_SCALAR, SCALE};
use crate::vector::{to_v3, v3i, v3i_in_scalar, vadd, vscale, V3i, Vec2, Vec3};

verus! {

/// Mass of the star spawned at session start.
pub const STAR_MASS: i64 = 10_000_000;

/// Half-extent of the star's collision box.
pub const STAR_HALF_EXTENT: i64 = 96_000;

pub open spec fn abs_val(a: int) -> int {
    if a < 0 {
        -a
    } else {
        a
    }
}

/// Pointwise well-formedness and identity of a rewritten store imply
/// well-formedness of the whole store.
pub proof fn lemma_wf_pointwise(pre: World, post: World)
    requires
        wf_world(pre),
        post.next_id == pre.next_id,
        post.entities@.len() == pre.entities@.len(),
        forall|i: int|
            0 <= i < pre.entities@.len() ==> wf_entity(#[trigger] post.entities@[i]),
        forall|i: int|
            0 <= i < pre.entities@.len() ==> (#[trigger] post.entities@[i]).id
                == pre.entities@[i].id,
    ensures
        wf_world(post),
{
}

// ---------------------------------------------------------------------
// Force summation: Newton's second law.
// ---------------------------------------------------------------------
/// Whether the force-summation system touches this entity.
pub open spec fn has_force_attrs(e: Entity) -> bool {
    e.forces is Some && e.mass is Some && e.acceleration is Some
}

/// The acceleration the net force demands: `a = F / m`, componentwise in
/// fixed point.
pub open spec fn accel_of(e: Entity) -> V3i
    recommends
        has_force_attrs(e),
{
    let n = net_of(e.forces->0);
    let m = (e.mass->0).0 as int;
    V3i { x: fdiv(n.x, m), y: fdiv(n.y, m), z: fdiv(n.z, m) }
}

/// One entity's force-summation step.
pub open spec fn forces_step(e: Entity) -> Entity {
    if has_force_attrs(e) && v3i_in_scalar(accel_of(e)) {
        Entity { acceleration: Some(crate::entity::Acceleration(to_v3(accel_of(e)))), ..e }
    } else {
        e
    }
}

/// Sums all forces applied to each entity into the net force, then sets
/// the acceleration according to Newton's second law.
pub fn apply_forces(world: &mut World)
    requires
        wf_world(*old(world)),
    ensures
        final(world).entities@.len() == old(world).entities@.len(),
        forall|i: int|
            0 <= i < old(world).entities@.len() ==> final(world).entities@[i] == forces_step(
                #[trigger] old(world).entities@[i],
            ),
        final(world).next_id == old(world).next_id,
        wf_world(*final(world)),
{
    let ghost orig = world.entities@;
    let ghost nid = world.next_id;
    let n = world.entities.len();
    let mut i: usize = 0;
    while i < n
        invariant
            i <= n,
            n == world.entities@.len(),
            n == orig.len(),
            world.next_id == nid,
            forall|k: int| 0 <= k < n ==> wf_entity(#[trigger] orig[k]),
            forall|k: int| 0 <= k < i ==> world.entities@[k] == forces_step(#[trigger] orig[k]),
            forall|k: int| i <= k < n ==> world.entities@[k] == #[trigger] orig[k],
        decreases n - i,
    {
        let e = world.entities[i];
        let mut updated = e;
        if e.forces.is_some() && e.mass.is_some() && e.acceleration.is_some() {
            let fs = e.forces.unwrap();
            let m = e.mass.unwrap();
            let net = fs.net_force();
            let ax = fx_div(net.x, m.0);
            let ay = fx_div(net.y, m.0);
            let az = fx_div(net.z, m.0);
            if -MAX_SCALAR <= ax && ax <= MAX_SCALAR && -MAX_SCALAR <= ay && ay <= MAX_SCALAR
                && -MAX_SCALAR <= az && az <= MAX_SCALAR {
                updated.acceleration = Some(
                    crate::entity::Acceleration(Vec3 { x: ax, y: ay, z: az }),
                );
            }
        }
        proof {
            assert(updated == forces_step(orig[i as int]));
        }
        world.entities.set(i, updated);
        i = i + 1;
    }
    proof {
        assert forall|k: int| 0 <= k < n implies wf_entity(#[trigger] world.entities@[k])
            && world.entities@[k].id == orig[k].id by {
            assert(world.entities@[k] == forces_step(orig[k]));
        }
        lemma_wf_pointwise(*old(world), *world);
    }
}

// ---------------------------------------------------------------------
// Acceleration: velocity integration.
// ---------------------------------------------------------------------
/// One entity's velocity-integration step: `v' = v + a * dt`.
pub open spec fn accel_step(e: Entity, dt: int) -> Entity {
    if e.acceleration is Some && e.velocity is Some {
        let v = vadd(v3i((e.velocity->0).0), vscale(v3i((e.acceleration->0).0), dt));
        if v3i_in_scalar(v) {
            Entity { velocity: Some(crate::entity::Velocity(to_v3(v))), ..e }
        } else {
            e
        }
    } else {
        e
    }
}

/// Changes each entity's velocity according to its acceleration.
pub fn apply_acceleration(world: &mut World, dt: i64)
    requires
        wf_world(*old(world)),
        0 <= dt <= MAX_SCALAR,
    ensures
        final(world).entities@.len() == old(world).entities@.len(),
        forall|i: int|
            0 <= i < old(world).entities@.len() ==> final(world).entities@[i] == accel_step(
                #[trigger] old(world).entities@[i],
                dt as int,
            ),
        final(world).next_id == old(world).next_id,
        wf_world(*final(world)),
{
    let ghost orig = world.entities@;
    let ghost nid = world.next_id;
    let n = world.entities.len();
    let mut i: usize = 0;
    while i < n
        invariant
            i <= n,
            n == world.entities@.len(),
            n == orig.len(),
            world.next_id == nid,
            0 <= dt <= MAX_SCALAR,
            forall|k: int| 0 <= k < n ==> wf_entity(#[trigger] orig[k]),
            forall|k: int|
                0 <= k < i ==> world.entities@[k] == accel_step(#[trigger] orig[k], dt as int),
            forall|k: int| i <= k < n ==> world.entities@[k] == #[trigger] orig[k],
        decreases n - i,
    {
        let e = world.entities[i];
        let mut updated = e;
        if e.acceleration.is_some() && e.velocity.is_some() {
            let a = e.acceleration.unwrap();
            let v = e.velocity.unwrap();
            let vx = v.0.x + fx_mul(a.0.x, dt);
            let vy = v.0.y + fx_mul(a.0.y, dt);
            let vz = v.0.z + fx_mul(a.0.z, dt);
            if -MAX_SCALAR <= vx && vx <= MAX_SCALAR && -MAX_SCALAR <= vy && vy <= MAX_SCALAR
                && -MAX_SCALAR <= vz && vz <= MAX_SCALAR {
                updated.velocity = Some(crate::entity::Velocity(Vec3 { x: vx, y: vy, z: vz }));
            }
        }
        proof {
            assert(updated == accel_step(orig[i as int], dt as int));
        }
        world.entities.set(i, updated);
        i = i + 1;
    }
    proof {
        assert forall|k: int| 0 <= k < n implies wf_entity(#[trigger] world.entities@[k])
            && world.entities@[k].id == orig[k].id by {
            assert(world.entities@[k] == accel_step(orig[k], dt as int));
        }
        lemma_wf_pointwise(*old(world), *world);
    }
}

// ---------------------------------------------------------------------
// Velocity: position integration.
// ---------------------------------------------------------------------
/// One entity's position-integration step: `p' = p + v * dt`.
pub open spec fn velocity_step(e: Entity, dt: int) -> Entity {
    if e.velocity is Some {
        let p = vadd(v3i(e.position), vscale(v3i((e.velocity->0).0), dt));
        if v3i_in_scalar(p) {
            Entity { position: to_v3(p), ..e }
        } else {
            e
        }
    } else {
        e
    }
}

/// Changes each entity's position according to its velocity.
pub fn apply_velocity(world: &mut World, dt: i64)
    requires
        wf_world(*old(world)),
        0 <= dt <= MAX_SCALAR,
    ensures
        final(world).entities@.len() == old(world).entities@.len(),
        forall|i: int|
            0 <= i < old(world).entities@.len() ==> final(world).entities@[i] == velocity_step(
                #[trigger] old(world).entities@[i],
                dt as int,
            ),
        final(world).next_id == old(world).next_id,
        wf_world(*final(world)),
{
    let ghost orig = world.entities@;
    let ghost nid = world.next_id;
    let n = world.entities.len();
    let mut i: usize = 0;
    while i < n
        invariant
            i <= n,
            n == world.entities@.len(),
            n == orig.len(),
            world.next_id == nid,
            0 <= dt <= MAX_SCALAR,
            forall|k: int| 0 <= k < n ==> wf_entity(#[trigger] orig[k]),
            forall|k: int|
                0 <= k < i ==> world.entities@[k] == velocity_step(#[trigger] orig[k], dt as int),
            forall|k: int| i <= k < n ==> world.entities@[k] == #[trigger] orig[k],
        decreases n - i,
    {
        let e = world.entities[i];
        let mut updated = e;
        if e.velocity.is_some() {
            let v = e.velocity.unwrap();
            let px = e.position.x + fx_mul(v.0.x, dt);
            let py = e.position.y + fx_mul(v.0.y, dt);
            let pz = e.position.z + fx_mul(v.0.z, dt);
            if -MAX_SCALAR <= px && px <= MAX_SCALAR && -MAX_SCALAR <= py && py <= MAX_SCALAR
                && -MAX_SCALAR <= pz && pz <= MAX_SCALAR {
                updated.position = Vec3 { x: px, y: py, z: pz };
            }
        }
        proof {
            assert(updated == velocity_step(orig[i as int], dt as int));
        }
        world.entities.set(i, updated);
        i = i + 1;
    }
    proof {
        assert forall|k: int| 0 <= k < n implies wf_entity(#[trigger] world.entities@[k])
            && world.entities@[k].id == orig[k].id by {
            assert(world.entities@[k] == velocity_step(orig[k], dt as int));
        }
        lemma_wf_pointwise(*old(world), *world);
    }
}

// ---------------------------------------------------------------------
// Gravity.
// ---------------------------------------------------------------------
/// Whether an entity acts as a gravity source.
pub open spec fn is_star_source(e: Entity) -> bool {
    e.role is Star && e.mass is Some
}

/// The gravity sources of the store, in store order.
pub open spec fn star_sources(s: Seq<Entity>) -> Seq<Entity> {
    s.filter(|e: Entity| is_star_source(e))
}

/// Squared distance floored at one squared unit, guarding the
/// singularity at zero distance.
pub open spec fn grav_d2f(d2: int) -> int {
    if d2 < SCALE {
        SCALE as int
    } else {
        d2
    }
}

/// Distance floored at one unit.
pub open spec fn grav_dist(d2: int) -> int
    recommends
        0 <= d2,
{
    let root = isqrt((d2 * SCALE) as nat) as int;
    if root < SCALE {
        SCALE as int
    } else {
        root
    }
}

/// The gravity magnitude: the source mass over the squared distance
/// (the gravitational constant and the attracted mass are folded in).
pub open spec fn grav_mag(m: int, d2: int) -> int {
    fdiv(m, grav_d2f(d2))
}

/// The gravitational force a source of mass `m` at `sp` exerts on an
/// entity at `p`: the unit direction toward the source times the
/// inverse-square magnitude.
pub open spec fn grav_force_v(m: int, sp: Vec3, p: Vec3) -> V3i {
    let dir = V3i { x: sp.x - p.x, y: sp.y - p.y, z: sp.z - p.z };
    let d2 = fmul(dir.x, dir.x) + fmul(dir.y, dir.y) + fmul(dir.z, dir.z);
    let mag = grav_mag(m, d2);
    let dist = grav_dist(d2);
    V3i {
        x: fmul(fdiv(dir.x, dist), mag),
        y: fmul(fdiv(dir.y, dist), mag),
        z: fmul(fdiv(dir.z, dist), mag),
    }
}

/// One entity's gravity step: each source overwrites the gravity entry
/// in store order, so with several sources the last one wins: a known
/// limitation of the overwrite-one-key design.
pub open spec fn gravity_step(e: Entity, stars: Seq<Entity>) -> Entity {
    if !(e.role is Star) && e.forces is Some && stars.len() > 0 {
        let star = stars.last();
        let f = grav_force_v((star.mass->0).0 as int, star.position, e.position);
        Entity {
            forces: Some(Forces { thrust: e.forces->0.thrust, gravity: Some(to_v3(f)) }),
            ..e
        }
    } else {
        e
    }
}

/// The force one gravity source exerts on a body at `pos`.
pub fn gravity_force(star_mass: i64, star_pos: Vec3, pos: Vec3) -> (f: Vec3)
    requires
        1 <= star_mass <= MAX_SCALAR,
        wf_vec3(star_pos),
        wf_vec3(pos),
    ensures
        v3i(f) == grav_force_v(star_mass as int, star_pos, pos),
        wf_force_vec(f),
{
    let dx = star_pos.x - pos.x;
    let dy = star_pos.y - pos.y;
    let dz = star_pos.z - pos.z;
    let qx = fx_mul(dx, dx);
    let qy = fx_mul(dy, dy);
    let qz = fx_mul(dz, dz);
    proof {
        assert(dx as int * dx as int >= 0) by (nonlinear_arith);
        assert(dy as int * dy as int >= 0) by (nonlinear_arith);
        assert(dz as int * dz as int >= 0) by (nonlinear_arith);
    }
    let d2 = qx + qy + qz;
    let d2f = if d2 < SCALE {
        SCALE
    } else {
        d2
    };
    let mag = fx_div(star_mass, d2f);
    let root = fx_sqrt(d2);
    let dist = if root < SCALE {
        SCALE
    } else {
        root
    };
    let ux = fx_div(dx, dist);
    let uy = fx_div(dy, dist);
    let uz = fx_div(dz, dist);
    Vec3 { x: fx_mul(ux, mag), y: fx_mul(uy, mag), z: fx_mul(uz, mag) }
}

/// Applies a gravitational force from every star to every non-star
/// entity with a force set, writing the gravity entry of its forces.
pub fn apply_gravity(world: &mut World)
    requires
        wf_world(*old(world)),
    ensures
        final(world).entities@.len() == old(world).entities@.len(),
        forall|i: int|
            0 <= i < old(world).entities@.len() ==> final(world).entities@[i] == gravity_step(
                #[trigger] old(world).entities@[i],
                star_sources(old(world).entities@),
            ),
        final(world).next_id == old(world).next_id,
        wf_world(*final(world)),
{
    broadcast use vstd::seq_lib::group_filter_ensures;

    let ghost orig = world.entities@;
    let ghost nid = world.next_id;
    let n = world.entities.len();
    // Collect the gravity sources first: their positions must not change
    // while the pass below rewrites force sets.
    let mut stars: Vec<Entity> = Vec::new();
    let mut i: usize = 0;
    while i < n
        invariant
            i <= n,
            n == world.entities@.len(),
            world.entities@ == orig,
            forall|k: int| 0 <= k < n ==> wf_entity(#[trigger] orig[k]),
            stars@ == orig.take(i as int).filter(|e: Entity| is_star_source(e)),
            forall|k: int|
                0 <= k < stars@.len() ==> wf_entity(#[trigger] stars@[k]) && is_star_source(
                    stars@[k],
                ),
        decreases n - i,
    {
        let e = world.entities[i];
        proof {
            assert(orig.take(i as int + 1) =~= orig.take(i as int).push(orig[i as int]));
            orig.take(i as int).lemma_filter_push(orig[i as int], |e: Entity| is_star_source(e));
        }
        if matches!(e.role, Role::Star) && e.mass.is_some() {
            stars.push(e);
        }
        i = i + 1;
    }
    proof {
        assert(orig.take(n as int) =~= orig);
        assert(stars@ == star_sources(orig));
    }
    let mut i: usize = 0;
    while i < n
        invariant
            i <= n,
            n == world.entities@.len(),
            n == orig.len(),
            world.next_id == nid,
            stars@ == star_sources(orig),
            forall|k: int|
                0 <= k < stars@.len() ==> wf_entity(#[trigger] stars@[k]) && is_star_source(
                    stars@[k],
                ),
            forall|k: int| 0 <= k < n ==> wf_entity(#[trigger] orig[k]),
            forall|k: int|
                0 <= k < i ==> world.entities@[k] == gravity_step(#[trigger] orig[k], stars@),
            forall|k: int| 0 <= k < i ==> wf_entity(#[trigger] world.entities@[k]),
            forall|k: int| i <= k < n ==> world.entities@[k] == #[trigger] orig[k],
        decreases n - i,
    {
        let e = world.entities[i];
        let mut updated = e;
        if !matches!(e.role, Role::Star) && e.forces.is_some() && stars.len() > 0 {
            let mut fs = e.forces.unwrap();
            let mut k: usize = 0;
            while k < stars.len()
                invariant
                    k <= stars@.len(),
                    stars@.len() > 0,
                    forall|j: int|
                        0 <= j < stars@.len() ==> wf_entity(#[trigger] stars@[j])
                            && is_star_source(stars@[j]),
                    wf_entity(e),
                    e.forces is Some,
                    wf_forces(fs),
                    k == 0 ==> fs == e.forces->0,
                    k >= 1 ==> fs == (Forces {
                        thrust: e.forces->0.thrust,
                        gravity: Some(
                            to_v3(
                                grav_force_v(
                                    (stars@[k - 1].mass->0).0 as int,
                                    stars@[k - 1].position,
                                    e.position,
                                ),
                            ),
                        ),
                    }),
                decreases stars@.len() - k,
            {
                let s = stars[k];
                let f = gravity_force(s.mass.unwrap().0, s.position, e.position);
                fs.set_force(ForceName::Gravity, f);
                proof {
                    let gf = grav_force_v(
                        (stars@[k as int].mass->0).0 as int,
                        stars@[k as int].position,
                        e.position,
                    );
                    assert(v3i(f) == gf);
                    assert(f.x == gf.x as i64 && f.y == gf.y as i64 && f.z == gf.z as i64);
                    assert(f == to_v3(gf));
                }
                k = k + 1;
            }
            updated.forces = Some(fs);
        }
        proof {
            assert(updated == gravity_step(orig[i as int], stars@));
            assert(wf_entity(updated));
        }
        world.entities.set(i, updated);
        i = i + 1;
    }
    proof {
        assert forall|k: int| 0 <= k < n implies world.entities@[k].id == orig[k].id by {
            assert(world.entities@[k] == gravity_step(orig[k], stars@));
        }
        lemma_wf_pointwise(*old(world), *world);
    }
}

// ---------------------------------------------------------------------
// Collision detection.
// ---------------------------------------------------------------------
/// Two axis-aligned boxes overlap iff their projections overlap on both
/// the x and the y axis.
pub open spec fn overlap_boxes(p1: Vec3, c1: Collider, p2: Vec3, c2: Collider) -> bool {
    abs_val(p1.x - p2.x) < c1.dimensions.x + c2.dimensions.x && abs_val(p1.y - p2.y)
        < c1.dimensions.y + c2.dimensions.y
}

pub open spec fn overlap(e1: Entity, e2: Entity) -> bool
    recommends
        e1.collider is Some,
        e2.collider is Some,
{
    overlap_boxes(e1.position, e1.collider->0, e2.position, e2.collider->0)
}

/// Whether entity `i` overlaps any other collidable entity.
pub open spec fn hits_anything(s: Seq<Entity>, i: int) -> bool {
    exists|j: int|
        0 <= j < s.len() && j != i && s[i].collider is Some && (#[trigger] s[j]).collider is Some
            && overlap(s[i], s[j])
}

/// One entity's collision step: a destroyable collider overlapping any
/// other collider flags its entity for removal.
pub open spec fn collision_step(s: Seq<Entity>, i: int) -> Entity
    recommends
        0 <= i < s.len(),
{
    let e = s[i];
    if e.collider is Some && e.collider->0.destroyable && hits_anything(s, i) {
        Entity { marked: true, ..e }
    } else {
        e
    }
}

/// Whether the two boxes at `p1` and `p2` with the given half-extents
/// overlap.
pub fn overlaps(p1: Vec3, c1: Collider, p2: Vec3, c2: Collider) -> (b: bool)
    requires
        wf_vec3(p1),
        wf_vec3(p2),
        wf_collider(c1),
        wf_collider(c2),
    ensures
        b == overlap_boxes(p1, c1, p2, c2),
{
    let dx = if p1.x >= p2.x {
        p1.x - p2.x
    } else {
        p2.x - p1.x
    };
    let dy = if p1.y >= p2.y {
        p1.y - p2.y
    } else {
        p2.y - p1.y
    };
    dx < c1.dimensions.x + c2.dimensions.x && dy < c1.dimensions.y + c2.dimensions.y
}

/// Tests every unordered pair of collidable entities for overlap and
/// flags each overlapping destroyable entity for removal.  All pairs are
/// checked; there is no early exit and no spatial partitioning.
pub fn check_for_collisions(world: &mut World)
    requires
        wf_world(*old(world)),
    ensures
        final(world).entities@.len() == old(world).entities@.len(),
        forall|i: int|
            0 <= i < old(world).entities@.len() ==> final(world).entities@[i] == collision_step(
                old(world).entities@,
                i,
            ),
        final(world).next_id == old(world).next_id,
        wf_world(*final(world)),
{
    let ghost orig = world.entities@;
    let ghost nid = world.next_id;
    let n = world.entities.len();
    let mut hits: Vec<bool> = Vec::new();
    let mut i: usize = 0;
    while i < n
        invariant
            i <= n,
            n == world.entities@.len(),
            world.entities@ == orig,
            forall|k: int| 0 <= k < n ==> wf_entity(#[trigger] orig[k]),
            hits@.len() == i,
            forall|k: int| 0 <= k < i ==> hits@[k] == hits_anything(orig, k),
        decreases n - i,
    {
        let e = world.entities[i];
        let mut found = false;
        let mut j: usize = 0;
        while j < n
            invariant
                j <= n,
                i < n,
                n == world.entities@.len(),
                world.entities@ == orig,
                e == orig[i as int],
                forall|k: int| 0 <= k < n ==> wf_entity(#[trigger] orig[k]),
                found == exists|k: int|
                    0 <= k < j && k != i && orig[i as int].collider is Some && (
                    #[trigger] orig[k]).collider is Some && overlap(orig[i as int], orig[k]),
            decreases n - j,
        {
            if j != i {
                let o = world.entities[j];
                if e.collider.is_some() && o.collider.is_some() {
                    let hit = overlaps(
                        e.position,
                        e.collider.unwrap(),
                        o.position,
                        o.collider.unwrap(),
                    );
                    if hit {
                        found = true;
                    }
                }
            }
            j = j + 1;
        }
        hits.push(found);
        i = i + 1;
    }
    let mut i: usize = 0;
    while i < n
        invariant
            i <= n,
            n == world.entities@.len(),
            n == orig.len(),
            world.next_id == nid,
            hits@.len() == n,
            forall|k: int| 0 <= k < n ==> hits@[k] == hits_anything(orig, k),
            forall|k: int| 0 <= k < n ==> wf_entity(#[trigger] orig[k]),
            forall|k: int| 0 <= k < i ==> world.entities@[k] == collision_step(orig, k),
            forall|k: int| i <= k < n ==> world.entities@[k] == #[trigger] orig[k],
        decreases n - i,
    {
        let e = world.entities[i];
        let mut updated = e;
        if e.collider.is_some() && e.collider.unwrap().destroyable && hits[i] {
            updated.marked = true;
        }
        proof {
            assert(updated == collision_step(orig, i as int));
        }
        world.entities.set(i, updated);
        i = i + 1;
    }
    proof {
        assert forall|k: int| 0 <= k < n implies wf_entity(#[trigger] world.entities@[k])
            && world.entities@[k].id == orig[k].id by {
            assert(world.entities@[k] == collision_step(orig, k));
        }
        lemma_wf_pointwise(*old(world), *world);
    }
}

// ---------------------------------------------------------------------
// Star lifecycle.
// ---------------------------------------------------------------------
/// The star spawned on entry into the playing state: immovable (no force
/// set, so the integrator never touches it) and never destroyable.
pub open spec fn star_entity(id: u64, visual: Visual) -> Entity {
    Entity {
        id,
        role: Role::Star,
        visual,
        position: Vec3 { x: 0, y: 0, z: 0 },
        heading: 0,
        mass: Some(Mass(STAR_MASS)),
        forces: None,
        acceleration: None,
        velocity: None,
        collider: Some(
            Collider {
                dimensions: Vec2 { x: STAR_HALF_EXTENT, y: STAR_HALF_EXTENT },
                destroyable: false,
            },
        ),
        gun: None,
        marked: false,
    }
}

/// Spawns the session's star at the origin, with the visual the asset
/// collaborator supplies.
pub fn spawn_star(world: &mut World, visual: Visual)
    requires
        wf_world(*old(world)),
        old(world).next_id < u64::MAX,
    ensures
        final(world).entities@ == old(world).entities@.push(
            star_entity(old(world).next_id, visual),
        ),
        final(world).next_id == old(world).next_id + 1,
        wf_world(*final(world)),
{
    let id = world.next_id;
    let e = Entity {
        id,
        role: Role::Star,
        visual,
        position: Vec3::zero(),
        heading: 0,
        mass: Some(Mass(STAR_MASS)),
        forces: None,
        acceleration: None,
        velocity: None,
        collider: Some(
            Collider {
                dimensions: Vec2 { x: STAR_HALF_EXTENT, y: STAR_HALF_EXTENT },
                destroyable: false,
            },
        ),
        gun: None,
        marked: false,
    };
    world.spawn(e);
}

} // verus!
