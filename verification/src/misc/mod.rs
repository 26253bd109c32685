//! What stands around the entities: configuration and the choice of entity.

pub mod config;
pub mod launcher;
pub mod tui;
