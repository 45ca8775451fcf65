//! Helpers that are not part of the simulation itself.

pub mod interval;

pub use interval::Interval;
