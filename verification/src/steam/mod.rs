//! Steam libraries, games and Proton builds.

pub mod vdf;
pub mod library;
pub mod proton;
