//! What holds of the library, said of its results alone.

pub mod addr;
pub mod config;
pub mod connection;
pub mod display;
pub mod listeners;
pub mod load_balancer;
pub mod services;
pub mod server;
pub mod text;
pub mod text_map;
pub mod utils;
