use arcade_physics::actions::set_movement_actions;
use arcade_physics::game_control::{get_control, get_movement, GameControl, KeyInput};

fn no_keys() -> KeyInput {
    KeyInput {
        w: false,
        a: false,
        s: false,
        d: false,
        up: false,
        down: false,
        left: false,
        right: false,
        space: false,
        right_ctrl: false,
    }
}

#[test]
fn player_one_reads_wasd_and_space() {
    let mut k = no_keys();
    k.w = true;
    k.a = true;
    k.space = true;
    assert!(GameControl::Up.pressed(&k, 1));
    assert!(GameControl::Left.pressed(&k, 1));
    assert!(!GameControl::Down.pressed(&k, 1));
    assert!(!GameControl::Right.pressed(&k, 1));
    assert!(GameControl::Fire.pressed(&k, 1));
    // The same keys mean nothing to player two.
    assert!(!GameControl::Up.pressed(&k, 2));
    assert!(!GameControl::Left.pressed(&k, 2));
    assert!(!GameControl::Fire.pressed(&k, 2));
}

#[test]
fn player_two_reads_arrows_and_right_ctrl() {
    let mut k = no_keys();
    k.up = true;
    k.right = true;
    k.down = true;
    k.right_ctrl = true;
    assert!(GameControl::Up.pressed(&k, 2));
    assert!(GameControl::Right.pressed(&k, 2));
    assert!(GameControl::Down.pressed(&k, 2));
    assert!(!GameControl::Left.pressed(&k, 2));
    assert!(GameControl::Fire.pressed(&k, 2));
    assert!(!GameControl::Up.pressed(&k, 1));
    assert!(!GameControl::Fire.pressed(&k, 1));
}

#[test]
fn movement_is_one_unit_while_held() {
    let mut k = no_keys();
    k.d = true;
    assert_eq!(get_movement(GameControl::Right, &k, 1), 1000);
    assert_eq!(get_movement(GameControl::Left, &k, 1), 0);
    assert!(get_control(GameControl::Right, &k, 1));
    assert!(!get_control(GameControl::Left, &k, 1));
}

#[test]
fn rotation_is_left_minus_right() {
    let mut k = no_keys();
    k.a = true;
    let a = set_movement_actions(&k);
    assert_eq!(a.p1.rotation, Some(1000));
    k.d = true;
    let a = set_movement_actions(&k);
    // Held together, left and right cancel to no rotation.
    assert_eq!(a.p1.rotation, None);
    k.a = false;
    let a = set_movement_actions(&k);
    assert_eq!(a.p1.rotation, Some(-1000));
}

#[test]
fn intents_are_read_per_player() {
    let mut k = no_keys();
    k.w = true;
    k.space = true;
    k.left = true;
    let a = set_movement_actions(&k);
    assert!(a.p1.thrust);
    assert!(a.p1.fire);
    assert_eq!(a.p1.rotation, None);
    assert!(!a.p2.thrust);
    assert!(!a.p2.fire);
    assert_eq!(a.p2.rotation, Some(1000));
}
