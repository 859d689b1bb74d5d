//! Verified core of the `mll` model launcher: configuration, the control
//! protocol's messages, the daemon's bookkeeping of engine instances and
//! ports, and the text that the command-line client prints.

pub mod config;
pub mod ctl;
pub mod ctxt;
pub mod daemon;
pub mod display;
pub mod engine;
pub mod gateway;
pub mod host;
pub mod ipc;
pub mod launch;
pub mod text;
