//! Core simulation of a Breakout-style arcade game.
//!
//! The library holds the per-tick game logic: axis-aligned bounding-box
//! collision detection between a moving ball and a set of static colliders
//! (walls, bricks, paddle), velocity reflection on impact, brick destruction
//! with scorekeeping, paddle movement clamped to the arena, and a two-state
//! pause/run machine gating the simulation. Rendering, audio playback and
//! input polling are collaborators outside the library: it consumes plain
//! input flags and produces events and state for them.
//!
//! Coordinates are integers. A convenient convention is to store positions
//! and half-extents in subunits of 1/`ticks_per_second` of a world unit;
//! a velocity in world units per second then advances a position by exactly
//! its own value in subunits each fixed tick.

pub mod collision;
pub mod entity;
pub mod geometry;
pub mod paddle;
pub mod world;
