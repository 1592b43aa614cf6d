//! The decision logic of a forwarder and transparent reverse proxy.

pub mod addr;
pub mod config;
pub mod connection;
pub mod laws;
pub mod listeners;
pub mod server;
pub mod services;
pub mod text;
pub mod text_map;
pub mod utils;
