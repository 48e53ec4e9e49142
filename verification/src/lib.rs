//! Turn-based actor simulation core: a per-actor AI decision engine (a finite
//! state machine with cached pathfinding and goal memory) together with the
//! staged turn pipeline that sequences the per-turn subsystems into ordered,
//! barrier-separated phases.
//!
//! The library consumes a navigable grid and per-actor facts (position,
//! vision, vitals, faction) and emits intents (move, melee, start-dance) that
//! resolver systems consume later in the same turn.

pub mod ai;
pub mod dancing;
pub mod factions;
pub mod gamelog;
pub mod grid;
pub mod liquids;
pub mod nav;
pub mod noise;
pub mod pipeline;
pub mod rng;
pub mod text;
pub mod vitals;
pub mod world;
