//! The server that runs on an entity component system.
pub mod components;
pub mod systems;
