//! Core of a native module loader: byte-signature scanning over a module
//! image, a capability registry shared between modules, module descriptors,
//! and the dependency resolver that decides the load order.

pub mod config;
pub mod game_detection;
pub mod graph;
pub mod loader;
pub mod log;
pub mod metadata;
pub mod mod_info;
pub mod offset;
pub mod patch;
pub mod pattern;
pub mod registry;
pub mod resolver;
pub mod rtti;
pub mod version;
