//! Tunnel management for SSH `LocalForward`/`RemoteForward` definitions.
use vstd::prelude::*;

pub mod text;
pub mod decimal;
pub mod tunnel;
pub mod config;
pub mod manager;
pub mod tui;

pub use manager::TunnelManager;
pub use tui::{TuiState, TunnelInfo};
pub use tunnel::Tunnel;

verus! {
}
