//! Core logic for running WeMod alongside Steam games on Linux through Proton.

pub mod text;
pub mod error;
pub mod config;
pub mod paths;
pub mod env;
pub mod steam;
pub mod prefix;
pub mod launcher;
pub mod wemod;
pub mod inject;
pub mod gui;
pub mod cleanup;
pub mod cli;
