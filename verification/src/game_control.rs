//! Key-to-control mapping.
//!
//! Player one steers with W/A/S/D and fires with space; player two uses
//! the arrow keys and the right control key.  The external input
//! collaborator fills a `KeyInput` snapshot once per frame.

use vstd::prelude::*;

use crate::fixed::SCALE;

verus! {

/// Snapshot of the keys the game reads, true while held down.
#[derive(Clone, Copy, PartialEq, Eq, Structural, Debug)]
pub struct KeyInput {
    pub w: bool,
    pub a: bool,
    pub s: bool,
    pub d: bool,
    pub up: bool,
    pub down: bool,
    pub left: bool,
    pub right: bool,
    pub space: bool,
    pub right_ctrl: bool,
}

#[derive(Clone, Copy, PartialEq, Eq, Structural, Debug)]
pub enum GameControl {
    Up,
    Down,
    Left,
    Right,
    Fire,
}

/// Which key state the given control reads for the given player.
pub open spec fn spec_pressed(control: GameControl, keys: KeyInput, player_number: u8) -> bool {
    match control {
        GameControl::Up => if player_number == 1 {
            keys.w
        } else {
            keys.up
        },
        GameControl::Down => if player_number == 1 {
            keys.s
        } else {
            keys.down
        },
        GameControl::Left => if player_number == 1 {
            keys.a
        } else {
            keys.left
        },
        GameControl::Right => if player_number == 1 {
            keys.d
        } else {
            keys.right
        },
        GameControl::Fire => if player_number == 1 {
            keys.space
        } else {
            keys.right_ctrl
        },
    }
}

impl GameControl {
    pub fn pressed(&self, keyboard_input: &KeyInput, player_number: u8) -> (b: bool)
        ensures
            b == spec_pressed(*self, *keyboard_input, player_number),
    {
        match self {
            GameControl::Up => {
                if player_number == 1 {
                    keyboard_input.w
                } else {
                    keyboard_input.up
                }
            },
            GameControl::Down => {
                if player_number == 1 {
                    keyboard_input.s
                } else {
                    keyboard_input.down
                }
            },
            GameControl::Left => {
                if player_number == 1 {
                    keyboard_input.a
                } else {
                    keyboard_input.left
                }
            },
            GameControl::Right => {
                if player_number == 1 {
                    keyboard_input.d
                } else {
                    keyboard_input.right
                }
            },
            GameControl::Fire => {
                if player_number == 1 {
                    keyboard_input.space
                } else {
                    keyboard_input.right_ctrl
                }
            },
        }
    }
}

/// One fixed-point unit while the control is held, zero otherwise.
pub fn get_movement(control: GameControl, input: &KeyInput, player_number: u8) -> (r: i64)
    ensures
        r == if spec_pressed(control, *input, player_number) {
            SCALE as int
        } else {
            0
        },
{
    if control.pressed(input, player_number) {
        SCALE
    } else {
        0
    }
}

pub fn get_control(control: GameControl, input: &KeyInput, player_number: u8) -> (b: bool)
    ensures
        b == spec_pressed(control, *input, player_number),
{
    control.pressed(input, player_number)
}

} // verus!
