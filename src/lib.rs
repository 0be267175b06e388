//! Observation core for a real-time strategy game session: a terrain grid
//! decoder and colour blender, an entity synchroniser that turns per-tick
//! snapshots into a stable registry, and the decisions of a transparent
//! request/response relay between a bot and the game engine.
pub mod bots;
pub mod catalog;
pub mod controller;
pub mod fanout;
pub mod proxy;
pub mod relay;
pub mod settings;
pub mod setup;
pub mod style;
pub mod terrain;
pub mod units;
