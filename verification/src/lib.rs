//! Keyboard shortcut configuration, key-stroke parsing, conflict detection,
//! the IPC protocol between GUI and daemon, and the decisions the daemon and
//! the GUI client take on it.

pub mod text;
pub mod error;
pub mod keymap;
pub mod actions;
pub mod os;
pub mod config;
pub mod mapper;
pub mod conflict;
pub mod ipc;
pub mod auth;
pub mod daemon;
pub mod session;
pub mod client;
pub mod windows;
pub mod hotkey;
