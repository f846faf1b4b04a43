//! WeMod: which release to install, where its installer is cached, and installing it into
//! a prefix.

pub mod downloader;
pub mod installer;
