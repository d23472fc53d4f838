//! Lights: their protocol and how they are driven.

pub mod command_text;
pub mod exchange;
pub mod plan;
pub mod protocol;
pub mod registry;
pub mod runtime;

pub use protocol::LightStatus;
pub use runtime::{log_startup, LightError, LightService};
