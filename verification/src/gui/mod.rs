//! What the desktop application shows and keeps: its cached state and the records it hands
//! to its front end.

pub mod dto;
pub mod state;
