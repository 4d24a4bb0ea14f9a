use arcade_physics::entity::{
    Acceleration, Entity, ForceName, Forces, Mass, Role, Velocity, Visual, World,
};
use arcade_physics::fixed::{fx_div, fx_mul, fx_sqrt};
use arcade_physics::physics::{
    apply_acceleration, apply_forces, apply_gravity, apply_velocity, gravity_force, spawn_star,
};
use arcade_physics::vector::Vec3;

fn body(id: u64, x: i64, y: i64, z: i64, mass: i64) -> Entity {
    Entity {
        id,
        role: Role::Projectile,
        visual: Visual { handle: 0, scale: 1000 },
        position: Vec3 { x, y, z },
        heading: 0,
        mass: Some(Mass(mass)),
        forces: Some(Forces::none()),
        acceleration: Some(Acceleration(Vec3::zero())),
        velocity: Some(Velocity(Vec3::zero())),
        collider: None,
        gun: None,
        marked: false,
    }
}

#[test]
fn fixed_point_products_truncate_toward_zero() {
    assert_eq!(fx_mul(1500, 2000), 3000);
    assert_eq!(fx_mul(-1500, 2000), -3000);
    assert_eq!(fx_mul(1, 1), 0);
    assert_eq!(fx_mul(-1, 1), 0);
    assert_eq!(fx_mul(999, 999), 998);
}

#[test]
fn fixed_point_quotients_truncate_toward_zero() {
    assert_eq!(fx_div(1000, 3000), 333);
    assert_eq!(fx_div(-1000, 3000), -333);
    assert_eq!(fx_div(6000, 2000), 3000);
    assert_eq!(fx_div(0, 7), 0);
}

#[test]
fn fixed_point_square_roots() {
    assert_eq!(fx_sqrt(4000), 2000);
    assert_eq!(fx_sqrt(0), 0);
    assert_eq!(fx_sqrt(1000), 1000);
    assert_eq!(fx_sqrt(2000), 1414);
    assert_eq!(fx_sqrt(10_000_000), 100_000);
}

#[test]
fn set_force_overwrites_and_net_force_sums() {
    let mut f = Forces::none();
    assert_eq!(f.net_force(), Vec3 { x: 0, y: 0, z: 0 });
    f.set_force(ForceName::Thrust, Vec3 { x: 10, y: 0, z: 0 });
    f.set_force(ForceName::Gravity, Vec3 { x: -4, y: 2, z: 0 });
    assert_eq!(f.net_force(), Vec3 { x: 6, y: 2, z: 0 });
    f.set_force(ForceName::Thrust, Vec3 { x: 100, y: 0, z: 0 });
    assert_eq!(f.net_force(), Vec3 { x: 96, y: 2, z: 0 });
}

#[test]
fn zero_net_force_keeps_velocity() {
    let mut e = body(0, 0, 0, 0, 1000);
    e.velocity = Some(Velocity(Vec3 { x: 123, y: -456, z: 7 }));
    let mut w = World { entities: vec![e], next_id: 1 };
    apply_forces(&mut w);
    apply_acceleration(&mut w, 16);
    let v = w.entities[0].velocity.unwrap().0;
    assert_eq!(v, Vec3 { x: 123, y: -456, z: 7 });
}

#[test]
fn integration_step_follows_newton() {
    // F = (2, 0, 0), m = 2.0, dt = 0.5: a = F/m = (1, 0, 0),
    // v' = v + a*dt = (0.5, 0, 0), p' = p + v'*dt = (0.25, 0, 0).
    let mut e = body(0, 0, 0, 0, 2000);
    let mut f = Forces::none();
    f.set_force(ForceName::Thrust, Vec3 { x: 2000, y: 0, z: 0 });
    e.forces = Some(f);
    let mut w = World { entities: vec![e], next_id: 1 };
    apply_forces(&mut w);
    assert_eq!(w.entities[0].acceleration.unwrap().0, Vec3 { x: 1000, y: 0, z: 0 });
    apply_acceleration(&mut w, 500);
    assert_eq!(w.entities[0].velocity.unwrap().0, Vec3 { x: 500, y: 0, z: 0 });
    apply_velocity(&mut w, 500);
    assert_eq!(w.entities[0].position, Vec3 { x: 250, y: 0, z: 0 });
}

#[test]
fn position_update_uses_updated_velocity() {
    // With p = 0, v = 0, a = 1.0 and dt = 1: the semi-implicit order
    // gives p' = (v + a*dt)*dt = 1.0, not the forward-Euler 0.
    let mut e = body(0, 0, 0, 0, 1000);
    let mut f = Forces::none();
    f.set_force(ForceName::Thrust, Vec3 { x: 1000, y: 0, z: 0 });
    e.forces = Some(f);
    let mut w = World { entities: vec![e], next_id: 1 };
    apply_forces(&mut w);
    apply_acceleration(&mut w, 1000);
    apply_velocity(&mut w, 1000);
    assert_eq!(w.entities[0].position, Vec3 { x: 1000, y: 0, z: 0 });
}

#[test]
fn gravity_force_is_inverse_square() {
    // mass 10000 at the origin, body at (100, 0, 0):
    // magnitude 10000/100^2 = 1.0 toward the star.
    let f = gravity_force(
        10_000_000,
        Vec3 { x: 0, y: 0, z: 0 },
        Vec3 { x: 100_000, y: 0, z: 0 },
    );
    assert_eq!(f, Vec3 { x: -1000, y: 0, z: 0 });
}

#[test]
fn gravity_magnitude_decreases_with_distance() {
    let sp = Vec3 { x: 0, y: 0, z: 0 };
    let near = gravity_force(10_000_000, sp, Vec3 { x: 50_000, y: 0, z: 0 });
    let far = gravity_force(10_000_000, sp, Vec3 { x: 100_000, y: 0, z: 0 });
    assert!(near.x < far.x && far.x < 0);
}

#[test]
fn end_to_end_gravity_pull_unit_velocity() {
    // One star (mass 10000) at the origin, one body (mass 1) at
    // (100, 0, 0) with zero velocity; after one step with dt = 1 the
    // velocity points in -x with magnitude exactly 1.0.
    let mut w = World::new();
    spawn_star(&mut w, Visual { handle: 7, scale: 500 });
    // The star stores and forwards the visual the collaborator supplied.
    assert_eq!(w.entities[0].visual, Visual { handle: 7, scale: 500 });
    let e = body(w.next_id, 100_000, 0, 0, 1000);
    w.entities.push(e);
    w.next_id += 1;
    apply_gravity(&mut w);
    apply_forces(&mut w);
    apply_acceleration(&mut w, 1000);
    let v = w.entities[1].velocity.unwrap().0;
    assert_eq!(v, Vec3 { x: -1000, y: 0, z: 0 });
    // The star itself has no force set and never moves.
    apply_velocity(&mut w, 1000);
    assert_eq!(w.entities[0].position, Vec3 { x: 0, y: 0, z: 0 });
}

#[test]
fn last_star_wins_when_several_overwrite_the_gravity_entry() {
    let mut w = World::new();
    spawn_star(&mut w, Visual { handle: 7, scale: 500 });
    // A second star, far on the other side.
    let mut s2 = w.entities[0];
    s2.id = 1;
    s2.position = Vec3 { x: 200_000, y: 0, z: 0 };
    w.entities.push(s2);
    w.next_id += 1;
    let e = body(2, 100_000, 0, 0, 1000);
    w.entities.push(e);
    w.next_id += 1;
    apply_gravity(&mut w);
    let g = w.entities[2].forces.unwrap().gravity.unwrap();
    // Only the second star's pull is stored: it points toward +x.
    assert_eq!(g, Vec3 { x: 1000, y: 0, z: 0 });
}

#[test]
fn gravity_at_zero_distance_is_guarded() {
    let f = gravity_force(10_000_000, Vec3 { x: 0, y: 0, z: 0 }, Vec3 { x: 0, y: 0, z: 0 });
    assert_eq!(f, Vec3 { x: 0, y: 0, z: 0 });
    let close = gravity_force(10_000_000, Vec3 { x: 0, y: 0, z: 0 }, Vec3 { x: 1, y: 0, z: 0 });
    assert!(close.x <= 0);
}
