//! Simulation core of a 2D tile-based platformer: axis-aligned collision
//! primitives, a sectored broad-phase grid, a player movement state machine,
//! enemy behaviours, triggers, projectiles, and the per-frame world tick.
//!
//! All quantities (positions, velocities, timers) are fixed-point integers
//! counting thousandths of a world unit or of a second, so that every rule of
//! the simulation can be stated and proved exactly.
use vstd::prelude::*;

pub mod animation;
pub mod collision;
pub mod enemy;
pub mod staticobj;
pub mod fx;
pub mod game_world;
pub mod light_sources;
pub mod parser;
pub mod particles;
pub mod player;
pub mod wall_man;

verus! {

} // verus!
