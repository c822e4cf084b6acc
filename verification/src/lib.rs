//! Verified core of the Crimson Desert navigation overlay: code-cave
//! generation, jump patching, AOB scanning and the small state machines
//! that decide when to attach, which marker to follow and when to hide
//! the arrow.

pub mod error;
pub mod hooks;
pub mod scanner;
pub mod text;
pub mod logging;
pub mod app;
pub mod overlay;
pub mod config;
pub mod process;
