use arcade_physics::boundaries::wrap;
use arcade_physics::entity::{Collider, Entity, Role, Visual, World};
use arcade_physics::physics::{check_for_collisions, overlaps, spawn_star};
use arcade_physics::vector::{Vec2, Vec3};

fn boxed(id: u64, x: i64, y: i64, w: i64, h: i64, destroyable: bool) -> Entity {
    Entity {
        id,
        role: Role::Projectile,
        visual: Visual { handle: 0, scale: 1000 },
        position: Vec3 { x, y, z: 0 },
        heading: 0,
        mass: None,
        forces: None,
        acceleration: None,
        velocity: None,
        collider: Some(Collider { dimensions: Vec2 { x: w, y: h }, destroyable }),
        gun: None,
        marked: false,
    }
}

#[test]
fn boxes_overlap_iff_both_projections_overlap() {
    let c1 = Collider { dimensions: Vec2 { x: 2000, y: 3000 }, destroyable: true };
    let c2 = Collider { dimensions: Vec2 { x: 1000, y: 1000 }, destroyable: true };
    let at = |x: i64, y: i64| Vec3 { x, y, z: 0 };
    // |dx| < w1+w2 = 3000 and |dy| < h1+h2 = 4000.
    assert!(overlaps(at(0, 0), c1, at(2999, 0), c2));
    assert!(!overlaps(at(0, 0), c1, at(3000, 0), c2));
    assert!(overlaps(at(0, 0), c1, at(0, 3999), c2));
    assert!(!overlaps(at(0, 0), c1, at(0, 4000), c2));
    assert!(!overlaps(at(0, 0), c1, at(2999, 4000), c2));
    assert!(overlaps(at(0, 0), c1, at(-2999, -3999), c2));
}

#[test]
fn overlapping_destroyable_colliders_are_both_marked() {
    // Half-extent 5 each, 3 units apart: both flagged for removal.
    let a = boxed(0, 0, 0, 5000, 5000, true);
    let b = boxed(1, 3000, 0, 5000, 5000, true);
    let mut w = World { entities: vec![a, b], next_id: 2 };
    check_for_collisions(&mut w);
    assert!(w.entities[0].marked);
    assert!(w.entities[1].marked);
    w.despawn_marked();
    assert_eq!(w.entities.len(), 0);
}

#[test]
fn separated_colliders_are_not_marked() {
    let a = boxed(0, 0, 0, 5000, 5000, true);
    let b = boxed(1, 10_000, 0, 5000, 5000, true);
    let mut w = World { entities: vec![a, b], next_id: 2 };
    check_for_collisions(&mut w);
    assert!(!w.entities[0].marked);
    assert!(!w.entities[1].marked);
}

#[test]
fn star_is_never_removed_by_collision() {
    let mut w = World::new();
    spawn_star(&mut w, Visual { handle: 1, scale: 500 });
    // A projectile sitting right on the star.
    let p = boxed(w.next_id, 0, 0, 5000, 5000, true);
    w.entities.push(p);
    w.next_id += 1;
    check_for_collisions(&mut w);
    assert!(!w.entities[0].marked);
    assert!(w.entities[1].marked);
    w.despawn_marked();
    assert_eq!(w.entities.len(), 1);
    assert!(matches!(w.entities[0].role, Role::Star));
}

#[test]
fn non_destroyable_blocks_but_survives_any_overlap() {
    let hazard = boxed(0, 0, 0, 100_000, 100_000, false);
    let inside = boxed(1, 0, 0, 1, 1, true);
    let mut w = World { entities: vec![hazard, inside], next_id: 2 };
    check_for_collisions(&mut w);
    assert!(!w.entities[0].marked);
    assert!(w.entities[1].marked);
}

#[test]
fn despawn_all_clears_the_session() {
    let mut w = World::new();
    spawn_star(&mut w, Visual { handle: 1, scale: 500 });
    w.entities.push(boxed(w.next_id, 9000, 0, 10, 10, true));
    w.next_id += 1;
    w.despawn_all();
    assert_eq!(w.entities.len(), 0);
    assert_eq!(w.next_id, 2);
}

#[test]
fn wrap_sends_entities_to_the_opposite_edge() {
    let mut a = boxed(0, 726_000, -350_001, 10, 10, true);
    a.position.z = 42;
    let b = boxed(1, -725_001, 350_001, 10, 10, true);
    let c = boxed(2, 100, 200, 10, 10, true);
    let mut w = World { entities: vec![a, b, c], next_id: 3 };
    wrap(&mut w);
    assert_eq!(w.entities[0].position, Vec3 { x: -725_000, y: 350_000, z: 42 });
    assert_eq!(w.entities[1].position, Vec3 { x: 725_000, y: -350_000, z: 0 });
    assert_eq!(w.entities[2].position, Vec3 { x: 100, y: 200, z: 0 });
}
