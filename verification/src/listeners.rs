//! The listeners that take connections in.

pub mod tcp_rp;
pub mod tls_http_rp;
