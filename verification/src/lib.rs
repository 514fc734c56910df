//! PipeWire audio output switcher: the decision logic of the daemon and its commands.
//!
//! Window events from a Wayland compositor are matched against configured rules,
//! and the daemon decides which PipeWire sink should be the default output.

pub mod text;
pub mod cli;
pub mod pattern;
pub mod config;
pub mod notification;
pub mod daemon_manager;
pub mod compositor;
pub mod state;
pub mod pipewire;
pub mod ipc;
pub mod daemon;
pub mod commands;
pub mod nasw;
