//! The service that clients are to sign in with.

use vstd::prelude::*;
use crate::connection::{ConnectionInner, ForwardedConnection};

verus! {

/// The gatekeeper and where its connections come from.
pub struct GatekeeperAuth<R, T> {
    pub forward_receiver: R,
    pub task_tracker: T,
}

impl<R, T> GatekeeperAuth<R, T> {
    pub fn new(forward_receiver: R, task_tracker: T) -> (r: Self)
        ensures
            r == (GatekeeperAuth { forward_receiver, task_tracker }),
    {
        GatekeeperAuth { forward_receiver, task_tracker }
    }
}

/// The stream that the gatekeeper serves. A connection that does not run over TCP is passed over.
pub fn served_stream<C>(conn: ForwardedConnection<C>) -> (r: Option<C>)
    ensures
        r == match conn.inner {
            ConnectionInner::Tcp(stream) => Some(stream),
            ConnectionInner::Quic => None,
        },
{
    conn.inner.tcp()
}

} // verus!
