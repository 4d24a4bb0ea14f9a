//! Per-frame control intents, derived from the key snapshot.
//!
//! Rotation combines the left and right controls and cancels to none
//! when both or neither are held.

use vstd::prelude::*;

use crate::fixed::SCALE;
use crate::game_control::{spec_pressed, GameControl, KeyInput};

verus! {

/// One player's control intents for the current frame.
#[derive(Clone, Copy, Debug)]
pub struct PlayerActions {
    pub rotation: Option<i64>,
    pub thrust: bool,
    pub fire: bool,
}

impl Default for PlayerActions {
    fn default() -> (a: PlayerActions)
        ensures
            a.rotation is None,
            !a.thrust,
            !a.fire,
    {
        PlayerActions { rotation: None, thrust: false, fire: false }
    }
}

/// Both players' control intents for the current frame.
#[derive(Clone, Copy, Debug)]
pub struct Actions {
    pub p1: PlayerActions,
    pub p2: PlayerActions,
}

impl Default for Actions {
    fn default() -> (a: Actions)
        ensures
            a.p1.rotation is None && !a.p1.thrust && !a.p1.fire,
            a.p2.rotation is None && !a.p2.thrust && !a.p2.fire,
    {
        Actions { p1: PlayerActions::default(), p2: PlayerActions::default() }
    }
}

/// The rotation intent: one unit left minus one unit right, or none when
/// they cancel.
pub open spec fn spec_rotation(keys: KeyInput, player_number: u8) -> Option<i64> {
    let r = (if spec_pressed(GameControl::Left, keys, player_number) {
        SCALE as int
    } else {
        0
    }) - (if spec_pressed(GameControl::Right, keys, player_number) {
        SCALE as int
    } else {
        0
    });
    if r != 0 {
        Some(r as i64)
    } else {
        None
    }
}

pub open spec fn spec_player_actions(keys: KeyInput, player_number: u8) -> PlayerActions {
    PlayerActions {
        rotation: spec_rotation(keys, player_number),
        thrust: spec_pressed(GameControl::Up, keys, player_number),
        fire: spec_pressed(GameControl::Fire, keys, player_number),
    }
}

/// Every rotation intent is at most one unit in magnitude.
pub open spec fn actions_ok(a: Actions) -> bool {
    &&& (a.p1.rotation matches Some(r) ==> -SCALE <= r <= SCALE)
    &&& (a.p2.rotation matches Some(r) ==> -SCALE <= r <= SCALE)
}

fn player_actions_for(keyboard_input: &KeyInput, player_number: u8) -> (a: PlayerActions)
    ensures
        a == spec_player_actions(*keyboard_input, player_number),
{
    let player_rotation = crate::game_control::get_movement(
        GameControl::Left,
        keyboard_input,
        player_number,
    ) - crate::game_control::get_movement(GameControl::Right, keyboard_input, player_number);
    let rotation = if player_rotation != 0 {
        Some(player_rotation)
    } else {
        None
    };
    PlayerActions {
        rotation,
        thrust: crate::game_control::get_control(GameControl::Up, keyboard_input, player_number),
        fire: crate::game_control::get_control(GameControl::Fire, keyboard_input, player_number),
    }
}

/// Converts the key snapshot into both players' control intents.
pub fn set_movement_actions(keyboard_input: &KeyInput) -> (a: Actions)
    ensures
        a.p1 == spec_player_actions(*keyboard_input, 1),
        a.p2 == spec_player_actions(*keyboard_input, 2),
        actions_ok(a),
{
    Actions {
        p1: player_actions_for(keyboard_input, 1),
        p2: player_actions_for(keyboard_input, 2),
    }
}

} // verus!
