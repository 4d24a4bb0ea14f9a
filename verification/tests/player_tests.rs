use arcade_physics::actions::{Actions, PlayerActions};
use arcade_physics::entity::{Role, Visual, World};
use arcade_physics::player::{
    create_projectile, move_player, shoot, spawn_player_1, spawn_player_2,
};
use arcade_physics::vector::Vec3;

fn up() -> Vec3 {
    Vec3 { x: 0, y: 1000, z: 0 }
}

fn ship_visual(handle: u64) -> Visual {
    Visual { handle, scale: 200 }
}

fn shot_visual() -> Visual {
    Visual { handle: 9, scale: 1000 }
}

fn no_actions() -> Actions {
    Actions {
        p1: PlayerActions { rotation: None, thrust: false, fire: false },
        p2: PlayerActions { rotation: None, thrust: false, fire: false },
    }
}

fn firing_p1() -> Actions {
    let mut a = no_actions();
    a.p1.fire = true;
    a
}

#[test]
fn players_spawn_with_cold_guns_and_default_physics() {
    let mut w = World::new();
    spawn_player_1(&mut w, ship_visual(1));
    spawn_player_2(&mut w, ship_visual(2));
    assert_eq!(w.entities.len(), 2);
    assert_eq!(w.entities[0].position, Vec3 { x: -600_000, y: 0, z: 0 });
    assert_eq!(w.entities[1].position, Vec3 { x: 600_000, y: 0, z: 0 });
    assert!(matches!(w.entities[0].role, Role::Player { number: 1 }));
    assert!(matches!(w.entities[1].role, Role::Player { number: 2 }));
    let g = w.entities[0].gun.unwrap();
    // The one-shot cooldown starts unelapsed: the first shot waits.
    assert_eq!(g.duration, 250);
    assert_eq!(g.elapsed, 0);
    assert_eq!(w.entities[0].mass.unwrap().0, 1000);
    assert!(w.entities[0].collider.unwrap().destroyable);
    // Each player stores the visual supplied at spawn.
    assert_eq!(w.entities[0].visual, ship_visual(1));
    assert_eq!(w.entities[1].visual, ship_visual(2));
}

#[test]
fn projectiles_are_light_fast_and_destroyable() {
    let p = create_projectile(Vec3 { x: 7, y: 8, z: 9 }, up(), 3, shot_visual());
    assert!(matches!(p.role, Role::Projectile));
    assert_eq!(p.position, Vec3 { x: 7, y: 8, z: 9 });
    assert_eq!(p.velocity.unwrap().0, Vec3 { x: 0, y: 500_000, z: 0 });
    assert_eq!(p.mass.unwrap().0, 100);
    let c = p.collider.unwrap();
    assert_eq!(c.dimensions.x, 5000);
    assert!(c.destroyable);
}

#[test]
fn gun_cooldown_gates_firing() {
    // A fresh gun is cold: a fire request at t = 0 must not spawn.
    let mut w = World::new();
    spawn_player_1(&mut w, ship_visual(1));
    shoot(&mut w, &firing_p1(), up(), up(), shot_visual(), 0);
    assert_eq!(w.entities.len(), 1);
    assert_eq!(w.entities[0].gun.unwrap().elapsed, 0);
    // Once the full cooldown has elapsed the shot fires and resets.
    shoot(&mut w, &firing_p1(), up(), up(), shot_visual(), 250);
    assert_eq!(w.entities.len(), 2);
    assert_eq!(w.entities[0].gun.unwrap().elapsed, 0);
    // A second request at t = 100 < 250 after firing must not spawn.
    shoot(&mut w, &firing_p1(), up(), up(), shot_visual(), 100);
    assert_eq!(w.entities.len(), 2);
    assert_eq!(w.entities[0].gun.unwrap().elapsed, 100);
    // A request once t reaches 250 spawns exactly one and resets.
    shoot(&mut w, &firing_p1(), up(), up(), shot_visual(), 150);
    assert_eq!(w.entities.len(), 3);
    assert_eq!(w.entities[0].gun.unwrap().elapsed, 0);
}

#[test]
fn gun_ticks_without_fire_intent() {
    let mut w = World::new();
    spawn_player_1(&mut w, ship_visual(1));
    shoot(&mut w, &firing_p1(), up(), up(), shot_visual(), 250);
    assert_eq!(w.entities.len(), 2);
    shoot(&mut w, &no_actions(), up(), up(), shot_visual(), 400);
    // No fire intent: nothing spawns, the timer saturates at its duration.
    assert_eq!(w.entities.len(), 2);
    assert_eq!(w.entities[0].gun.unwrap().elapsed, 250);
}

#[test]
fn projectile_appears_ahead_of_the_firer() {
    let mut w = World::new();
    spawn_player_1(&mut w, ship_visual(1));
    shoot(&mut w, &firing_p1(), up(), up(), shot_visual(), 250);
    let p = w.entities[1];
    // 50 units ahead along the forward axis, moving at 500 units/sec.
    assert_eq!(p.position, Vec3 { x: -600_000, y: 50_000, z: 0 });
    assert_eq!(p.velocity.unwrap().0, Vec3 { x: 0, y: 500_000, z: 0 });
    assert!(matches!(p.role, Role::Projectile));
    assert_eq!(p.visual, shot_visual());
}

#[test]
fn only_the_firing_player_spawns() {
    let mut w = World::new();
    spawn_player_1(&mut w, ship_visual(1));
    spawn_player_2(&mut w, ship_visual(2));
    shoot(&mut w, &firing_p1(), up(), up(), shot_visual(), 250);
    assert_eq!(w.entities.len(), 3);
    // Player two's gun ticked without firing.
    assert_eq!(w.entities[0].gun.unwrap().elapsed, 0);
    assert_eq!(w.entities[1].gun.unwrap().elapsed, 250);
}

#[test]
fn thrust_writes_the_force_every_frame() {
    let mut w = World::new();
    spawn_player_1(&mut w, ship_visual(1));
    let mut a = no_actions();
    a.p1.thrust = true;
    move_player(&mut w, &a, up(), up(), 16);
    let f = w.entities[0].forces.unwrap();
    assert_eq!(f.thrust.unwrap(), Vec3 { x: 0, y: 200_000, z: 0 });
    // Thrust released: the entry is overwritten with zero, never stale.
    a.p1.thrust = false;
    move_player(&mut w, &a, up(), up(), 16);
    let f = w.entities[0].forces.unwrap();
    assert_eq!(f.thrust.unwrap(), Vec3 { x: 0, y: 0, z: 0 });
}

#[test]
fn rotation_intent_turns_the_heading() {
    let mut w = World::new();
    spawn_player_1(&mut w, ship_visual(1));
    let mut a = no_actions();
    a.p1.rotation = Some(1000);
    // 1.0 * 2.0 rad/s * 0.5 s = 1.0 rad.
    move_player(&mut w, &a, up(), up(), 500);
    assert_eq!(w.entities[0].heading, 1000);
    a.p1.rotation = Some(-1000);
    move_player(&mut w, &a, up(), up(), 250);
    assert_eq!(w.entities[0].heading, 500);
    a.p1.rotation = None;
    move_player(&mut w, &a, up(), up(), 250);
    assert_eq!(w.entities[0].heading, 500);
}
