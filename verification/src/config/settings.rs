//! Settings that the listeners and the connections share.

use std::sync::Arc;
use vstd::prelude::*;
use crate::addr::IpAddr;

verus! {

/// A length of time in whole seconds.
#[derive(Clone, Copy, Debug, PartialEq, Eq, Structural)]
pub struct Seconds {
    pub secs: u64,
}

impl View for Seconds {
    type V = Seconds;

    open spec fn view(&self) -> Seconds {
        *self
    }
}

/// The addresses and ports that the listeners bind to.
pub struct BindSettings {
    pub bind_ip_addrs: Arc<Vec<IpAddr>>,
    pub tls_rp_bind_port: Arc<Vec<u16>>,
}

impl Clone for BindSettings {
    fn clone(&self) -> (r: Self)
        ensures
            r == *self,
    {
        BindSettings {
            bind_ip_addrs: self.bind_ip_addrs.clone(),
            tls_rp_bind_port: self.tls_rp_bind_port.clone(),
        }
    }
}

/// What holds of every connection.
#[derive(Clone, Copy, Debug, PartialEq, Eq, Structural)]
pub struct ConnectionSettings {
    pub timeout: Seconds,
}

/// What holds of every connection that is looked into for a host name.
#[derive(Clone, Copy, Debug, PartialEq, Eq, Structural)]
pub struct TlsConnectionSettings {
    pub connection_settings: ConnectionSettings,
    pub max_client_hello_size: usize,
}

} // verus!
