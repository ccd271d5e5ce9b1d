//! Verified core logic of a keyboard/mouse/clipboard sharing service:
//! screen hand-off, key repetition, input de-duplication, trust-on-first-use
//! decisions, local IPC tokens, file-name hygiene and the GUI log monitor.

pub mod clipboard;
pub mod types;
pub mod screen;
pub mod handoff;
pub mod key_repeat;
pub mod x11;
pub mod held;
pub mod session;
pub mod client;
pub mod input;
pub mod win32;
pub mod wayland;
pub mod display;
pub mod server;
pub mod routing;
pub mod protocol;
pub mod text;
pub mod gui;
pub mod monitor;
pub mod hex;
pub mod decimal;
pub mod peer_id;
pub mod ipc;
pub mod crypto;
pub mod trust_store;
pub mod config;
pub mod file_transfer;
