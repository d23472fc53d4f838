//! Control service for TCP signal lights.

pub mod app_config;
pub mod config;
pub mod laws;
pub mod light;
pub mod light_runtime;
pub mod tcp_manager;
pub mod telemetry;
pub mod text;
pub mod web;
pub mod web_server;
