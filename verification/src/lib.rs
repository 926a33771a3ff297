//! Verified core of a bridge to the IL2CPP runtime of Unity games.
//!
//! The modules hold the logic that the bridge runs on values it has read
//! from the runtime: type-name formatting, the models of managed
//! collections, metadata rendering, dump planning and lookup caches.

pub mod text;
pub mod names;
pub mod collections;
pub mod symbols;
pub mod application;
pub mod handles;
pub mod model;
pub mod class;
pub mod render;
pub mod properties;
pub mod dump;
pub mod lookup;
pub mod invoke;
pub mod startup;
pub mod hydrate;
pub mod initializer;
pub mod qualified_names;
