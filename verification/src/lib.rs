//! Core layer of a desktop version-control front end: a task registry that
//! enforces at-most-one in-flight execution per (operation, destination) key
//! with cooperative, rotation-safe cancellation; pure parsers that turn raw
//! command-line text into typed records; and the decision logic that settles
//! each execution into exactly one outcome envelope.

pub mod commands;
pub mod envelope;
pub mod executor;
pub mod parsers;
pub mod registry;
pub mod text;
pub mod token;
