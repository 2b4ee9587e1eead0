//! Simulation core of a small tick-driven world.
//!
//! The crate holds the rules that advance a world by one tick: the clock, the
//! intent resolver and the state machine of an actor, the control of
//! collision slide resolution, the bookkeeping of what has to be redrawn, and
//! the textual form of entity handles.  Every rule carries a contract that
//! Verus checks.
//!
//! Places, velocities and distances are the caller's: the rules take what the
//! caller measured (whether an actor stands away from its target, whether a
//! probe hit a segment) and say what follows.  Where a rule concerns
//! components that this crate defines and nothing else, it runs over a
//! `hecs::World` directly; [`store`] lists what is assumed of that world.

pub mod collision;
pub mod components;
pub mod entity_id;
pub mod render;
pub mod store;
pub mod systems;
pub mod world;

pub use components::{Local, ModelId, Player, PlayerNode, PlayerState, Render, Tick};
