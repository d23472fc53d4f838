//! The HTTP interface.

pub mod api_response;
pub mod server;
