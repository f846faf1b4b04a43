//! Wine prefixes for WeMod: their layout, health, repair and creation.

pub mod manager;
pub mod builder;
