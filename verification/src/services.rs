//! The services that connections can be handed to, and the table that finds them.

pub mod gatekeeper_auth;
pub mod load_balancer;
pub mod ssh_tarpit;

use std::collections::BTreeMap;
use std::sync::Arc;
use vstd::prelude::*;
use crate::text::same_text;

verus! {

broadcast use vstd::std_specs::btree::group_btree_axioms;

/// A service inside the proxy that consumes connections.
#[derive(Clone, Copy, Debug, PartialEq, Eq, Structural, PartialOrd, Ord)]
pub enum InternalService {
    SshTarpit,
    LoadBalancer,
    GatekeeperAuth,
    /// A name for exercising destinations without any service behind it, which only a test build
    /// knows.
    TestService,
}

/// No service has the given name.
#[derive(Clone, Copy, Debug, PartialEq, Eq, Structural)]
pub struct UnknownService {}

/// The service with the given name. A test build knows one more than the others.
pub open spec fn service_named(s: Seq<char>, test_build: bool) -> Option<InternalService> {
    if s == "ssh-tarpit"@ {
        Some(InternalService::SshTarpit)
    } else if s == "load-balancer"@ {
        Some(InternalService::LoadBalancer)
    } else if s == "gatekeeper-auth"@ {
        Some(InternalService::GatekeeperAuth)
    } else if test_build && s == "test-service"@ {
        Some(InternalService::TestService)
    } else {
        None
    }
}

impl InternalService {
    /// The name by which a configuration refers to the service.
    pub open spec fn slug(self) -> Seq<char> {
        match self {
            InternalService::SshTarpit => "ssh-tarpit"@,
            InternalService::LoadBalancer => "load-balancer"@,
            InternalService::GatekeeperAuth => "gatekeeper-auth"@,
            InternalService::TestService => "test-service"@,
        }
    }

    /// Whether the service is known in such a build.
    pub open spec fn is_known(self, test_build: bool) -> bool {
        test_build || self != InternalService::TestService
    }

    /// Finds the service with the given name. `test_build` tells whether the service for tests is
    /// known.
    pub fn from_str(s: &str, test_build: bool) -> (r: Result<InternalService, UnknownService>)
        ensures
            match r {
                Ok(service) => service_named(s@, test_build) == Some(service),
                Err(_) => service_named(s@, test_build) is None,
            },
    {
        if same_text(s, "ssh-tarpit") {
            Ok(InternalService::SshTarpit)
        } else if same_text(s, "load-balancer") {
            Ok(InternalService::LoadBalancer)
        } else if same_text(s, "gatekeeper-auth") {
            Ok(InternalService::GatekeeperAuth)
        } else if test_build && same_text(s, "test-service") {
            Ok(InternalService::TestService)
        } else {
            Err(UnknownService {  })
        }
    }

    /// The name of the service.
    pub fn slug_name(&self) -> (name: &'static str)
        ensures
            name@ == self.slug(),
    {
        match self {
            InternalService::SshTarpit => "ssh-tarpit",
            InternalService::LoadBalancer => "load-balancer",
            InternalService::GatekeeperAuth => "gatekeeper-auth",
            InternalService::TestService => "test-service",
        }
    }

    /// The place of the service in the order of the table.
    pub closed spec fn rank(self) -> u64 {
        match self {
            InternalService::SshTarpit => 0,
            InternalService::LoadBalancer => 1,
            InternalService::GatekeeperAuth => 2,
            InternalService::TestService => 3,
        }
    }

    fn table_key(&self) -> (key: u64)
        ensures
            key == self.rank(),
    {
        match self {
            InternalService::SshTarpit => 0,
            InternalService::LoadBalancer => 1,
            InternalService::GatekeeperAuth => 2,
            InternalService::TestService => 3,
        }
    }
}

/// The name of a service finds that service where it is known, and no other name does.
pub proof fn service_names_round_trip(service: InternalService, s: Seq<char>, test_build: bool)
    ensures
        service_named(service.slug(), test_build) == if service.is_known(test_build) {
            Some(service)
        } else {
            None
        },
        service_named(s, test_build) == Some(service) ==> s == service.slug(),
{
    reveal_strlit("ssh-tarpit");
    reveal_strlit("load-balancer");
    reveal_strlit("gatekeeper-auth");
    reveal_strlit("test-service");
    assert("ssh-tarpit"@[0] == 's');
    assert("load-balancer"@[0] == 'l');
    assert("gatekeeper-auth"@[0] == 'g');
    assert("test-service"@[0] == 't');
}

/// Why a connection or a sender was not taken.
#[derive(Clone, Copy, Debug, PartialEq, Eq, Structural)]
pub enum ForwardError {
    /// The table has no sender for the service.
    NoForwarder(InternalService),
    /// The sender of the service did not take the connection.
    SendFailed(InternalService),
    /// The service already has a sender.
    AlreadyEntered,
}

/// The senders as a map from services.
closed spec fn by_service<S>(m: Map<u64, S>) -> Map<InternalService, S> {
    Map::new(|s: InternalService| m.contains_key(s.rank()), |s: InternalService| m[s.rank()])
}

/// The senders by which connections reach the services.
pub struct ServiceForwardTable<S> {
    inner: Arc<BTreeMap<u64, S>>,
}

impl<S> View for ServiceForwardTable<S> {
    type V = Map<InternalService, S>;

    closed spec fn view(&self) -> Map<InternalService, S> {
        by_service(self.inner@)
    }
}

impl<S> Clone for ServiceForwardTable<S> {
    fn clone(&self) -> (r: Self)
        ensures
            r == *self,
    {
        ServiceForwardTable { inner: self.inner.clone() }
    }
}

impl<S> ServiceForwardTable<S> {
    /// Whether the table has a sender for the service.
    pub fn has_service(&self, service_type: &InternalService) -> (has: bool)
        ensures
            has == self@.contains_key(*service_type),
    {
        self.inner.contains_key(&service_type.table_key())
    }

    /// The sender that a connection for the service goes to.
    pub fn forwarder(&self, service_type: &InternalService) -> (r: Result<&S, ForwardError>)
        ensures
            match r {
                Ok(sender) => self@.contains_key(*service_type) && *sender == self@[*service_type],
                Err(e) => !self@.contains_key(*service_type) && e == ForwardError::NoForwarder(
                    *service_type,
                ),
            },
    {
        match self.inner.get(&service_type.table_key()) {
            Some(sender) => Ok(sender),
            None => Err(ForwardError::NoForwarder(*service_type)),
        }
    }
}

/// What forwarding came to, once the sender has answered.
pub fn forward_outcome(service_type: &InternalService, sent: bool) -> (r: Result<(), ForwardError>)
    ensures
        sent ==> r == Ok::<(), ForwardError>(()),
        !sent ==> r == Err::<(), ForwardError>(ForwardError::SendFailed(*service_type)),
{
    if sent {
        Ok(())
    } else {
        Err(ForwardError::SendFailed(*service_type))
    }
}

/// A table that is still being filled.
pub struct ServiceForwardTableBuilder<S> {
    forwarders: BTreeMap<u64, S>,
}

impl<S> View for ServiceForwardTableBuilder<S> {
    type V = Map<InternalService, S>;

    closed spec fn view(&self) -> Map<InternalService, S> {
        by_service(self.forwarders@)
    }
}

impl<S> ServiceForwardTableBuilder<S> {
    pub fn new() -> (r: Self)
        ensures
            r@ == Map::<InternalService, S>::empty(),
    {
        let r = ServiceForwardTableBuilder { forwarders: BTreeMap::new() };
        assert(r@ =~= Map::<InternalService, S>::empty());
        r
    }

    /// Enters the sender of a service that has none yet.
    pub fn add(&mut self, service_type: InternalService, sender: S) -> (r: Result<(), ForwardError>)
        ensures
            old(self)@.contains_key(service_type) ==> {
                &&& r == Err::<(), ForwardError>(ForwardError::AlreadyEntered)
                &&& final(self)@ == old(self)@
            },
            !old(self)@.contains_key(service_type) ==> {
                &&& r == Ok::<(), ForwardError>(())
                &&& final(self)@ == old(self)@.insert(service_type, sender)
            },
    {
        if self.forwarders.contains_key(&service_type.table_key()) {
            return Err(ForwardError::AlreadyEntered);
        }
        self.forwarders.insert(service_type.table_key(), sender);
        assert(self@ =~= old(self)@.insert(service_type, sender));
        Ok(())
    }

    pub fn build(self) -> (r: ServiceForwardTable<S>)
        ensures
            r@ == self@,
    {
        ServiceForwardTable { inner: Arc::new(self.forwarders) }
    }
}

} // verus!
