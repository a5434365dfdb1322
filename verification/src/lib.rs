//! Native helpers for a desktop shell: a validated color-palette cache,
//! a parser for the audio server's status report, and window-manager IPC
//! command plumbing. The filesystem, socket and subprocess work stays with
//! the caller; every decision made here is specified and proved.

pub mod cache;
pub mod ipc;
pub mod palette;
pub mod sinks;
pub mod text;
pub mod volume;
