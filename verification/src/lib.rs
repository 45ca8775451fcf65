//! Simulation core of a small multiplayer game: a world of axis-aligned boxes
//! under gravity, stepped by an authoritative server and mirrored by clients.
//!
//! All quantities are fixed-point integers (see [`fixed`]), so that a step is a
//! deterministic function of the world and every statement about it is exact.

pub mod client;
pub mod components;
pub mod fixed;
pub mod hitscan;
pub mod network;
pub mod query;
pub mod server;
pub mod shared;
pub mod store;
pub mod utils;
pub mod vec3;
