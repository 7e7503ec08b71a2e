//! Verified core of the patch tool's IPC link and status window.

pub mod codec;
pub mod gui;
pub mod ipc;
