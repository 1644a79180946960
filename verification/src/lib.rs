//! Deterministic fixed-tick simulation core for a small real-time-strategy
//! environment: an entity/component world advanced by an
//! input -> movement -> trigger -> render pipeline, with per-tick observation,
//! reward and terminal evaluation, scenario-driven resets, and snapshots.
//!
//! All world quantities are fixed-point integers: one world unit is `SCALE`
//! micro-units, so every threshold the rules use (epsilon, trigger radii,
//! world bounds) is represented exactly and every tick is reproducible.

pub mod errors;
pub mod geom;
pub mod input;
pub mod ids;
pub mod components;
pub mod messages;
pub mod movement;
pub mod observe;
pub mod render;
pub mod rng;
pub mod rts;
pub mod scenario;
pub mod table;
pub mod trigger;
pub mod world;
