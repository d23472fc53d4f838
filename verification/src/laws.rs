//! What the operations of the library promise, told of their inputs and results alone.

pub mod addressing;
pub mod commands;
pub mod connections;
pub mod plans;
pub mod protocol;
pub mod replies;
pub mod retention;
pub mod tracing;
