//! Physics and collision core of a small 2D arcade game.
//!
//! The library accumulates per-entity named forces (thrust, gravity),
//! integrates them into acceleration, velocity and position with
//! semi-implicit Euler steps, detects axis-aligned collisions between all
//! entity pairs, and manages the lifecycle of players, projectiles and
//! stars.  All quantities are fixed-point scalars holding thousandths of a
//! world unit, so every frame step has an exact arithmetic contract.

pub mod actions;
pub mod boundaries;
pub mod entity;
pub mod game_control;
pub mod laws;
pub mod physics;
pub mod player;
pub mod fixed;
pub mod vector;
