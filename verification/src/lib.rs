//! Verified core of a transparent chat overlay for Wayland compositors:
//! the settings model, the runtime click-through state and how each
//! command changes it, the local control protocol, and the layer-shell
//! placement and input-region decisions.

pub mod app_state;
pub mod config;
pub mod ipc;
pub mod layer_shell_setup;
