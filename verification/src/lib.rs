//! Core of a versioned-build launcher: a totally ordered version scheme with a
//! canonical string form, platform/architecture asset resolution, and a
//! streaming download engine that reports progress through a bounded channel.

pub mod channel;
pub mod engine;
pub mod errors;
pub mod registry;
pub mod progress;
pub mod resolver;
pub mod version;
