//! The listener that forwards whole ports.

use vstd::prelude::*;
use crate::addr::{IpAddr, SocketAddr};
use crate::config::settings::{BindSettings, ConnectionSettings};
use crate::connection::{Destination, PossibleDestinations};
use crate::services::{InternalService, ServiceForwardTable};

verus! {

/// What the listener is made from.
pub struct SimpleTcpHandlerConfig {
    pub connection_settings: ConnectionSettings,
    pub destination_provider: Vec<(u16, PossibleDestinations)>,
}

/// The listener before it is bound.
pub struct SimpleTcpHandler<S> {
    pub connection_settings: ConnectionSettings,
    pub destination_provider: Vec<(u16, PossibleDestinations)>,
    pub forward_sender: ServiceForwardTable<S>,
}

/// The sockets to bind, with the port and the destinations that belong to each.
pub struct TcpBindPlan<S> {
    pub targets: Vec<(SocketAddr, (u16, PossibleDestinations))>,
    pub connection_settings: ConnectionSettings,
    pub forward_sender: ServiceForwardTable<S>,
}

/// The listener with its bound sockets.
pub struct BoundSimpleTcpHandler<L, S> {
    pub listeners: Vec<(L, (u16, PossibleDestinations))>,
    pub connection_settings: ConnectionSettings,
    pub forward_sender: ServiceForwardTable<S>,
}

/// The sockets for a list of ports: all of them on the first address, the last port first. Without
/// an address there are none.
pub open spec fn planned_targets(
    ips: Seq<IpAddr>,
    provider: Seq<(u16, PossibleDestinations)>,
) -> Seq<(SocketAddr, (u16, PossibleDestinations))> {
    if ips.len() == 0 {
        Seq::empty()
    } else {
        provider.reverse().map_values(
            |entry: (u16, PossibleDestinations)|
                (SocketAddr { ip: ips[0], port: entry.0 }, entry),
        )
    }
}

impl<S> SimpleTcpHandler<S> {
    pub fn new(config: SimpleTcpHandlerConfig, forward_sender: ServiceForwardTable<S>) -> (r: Self)
        ensures
            r == (SimpleTcpHandler {
                connection_settings: config.connection_settings,
                destination_provider: config.destination_provider,
                forward_sender,
            }),
    {
        SimpleTcpHandler {
            connection_settings: config.connection_settings,
            destination_provider: config.destination_provider,
            forward_sender,
        }
    }

    /// The sockets that the listener is to be bound to. Every port is used up by the first
    /// address.
    pub fn bind_plan(self, settings: &BindSettings) -> (r: TcpBindPlan<S>)
        ensures
            r.targets@ == planned_targets(settings.bind_ip_addrs@, self.destination_provider@),
            r.connection_settings == self.connection_settings,
            r.forward_sender == self.forward_sender,
    {
        let ghost all = self.destination_provider@;
        let ghost ips = settings.bind_ip_addrs@;
        let mut provider = self.destination_provider;
        let mut targets: Vec<(SocketAddr, (u16, PossibleDestinations))> = Vec::new();
        let mut i: usize = 0;
        while i < settings.bind_ip_addrs.len()
            invariant
                i <= settings.bind_ip_addrs.len(),
                ips == settings.bind_ip_addrs@,
                i == 0 ==> provider@ == all && targets.len() == 0,
                i > 0 ==> provider.len() == 0 && targets@ == planned_targets(ips, all),
            decreases settings.bind_ip_addrs.len() - i,
        {
            let ip = settings.bind_ip_addrs[i];
            while provider.len() > 0
                invariant
                    i == 0 ==> ip == ips[0],
                    ips.len() > 0,
                    i > 0 ==> provider.len() == 0 && targets@ == planned_targets(ips, all),
                    i == 0 ==> {
                        &&& provider.len() + targets.len() == all.len()
                        &&& provider@ == all.take(provider.len() as int)
                        &&& targets@ == planned_targets(ips, all).take(targets.len() as int)
                    },
                decreases provider.len(),
            {
                let ghost n = provider.len() as int;
                let ghost before = targets@;
                let entry = provider.pop().unwrap();
                let socket_addr = SocketAddr::new(ip, entry.0);
                targets.push((socket_addr, entry));
                proof {
                    assert(planned_targets(ips, all)[all.len() - n] == (socket_addr, all[n - 1]));
                    assert(targets@ =~= planned_targets(ips, all).take(targets.len() as int));
                }
            }
            assert(i == 0 ==> targets@ =~= planned_targets(ips, all));
            i += 1;
        }
        assert(ips.len() == 0 ==> targets@ =~= planned_targets(ips, all));
        TcpBindPlan {
            targets,
            connection_settings: self.connection_settings,
            forward_sender: self.forward_sender,
        }
    }
}

/// What belongs to the sockets of a bound listener, in order.
pub open spec fn bound_entries<L>(listeners: Seq<(L, (u16, PossibleDestinations))>) -> Seq<
    (u16, PossibleDestinations),
> {
    listeners.map_values(|l: (L, (u16, PossibleDestinations))| l.1)
}

impl<S> TcpBindPlan<S> {
    /// The listener with the sockets that have been bound for it.
    pub fn bound<L>(self, listeners: Vec<(L, (u16, PossibleDestinations))>) -> (r:
        BoundSimpleTcpHandler<L, S>)
        ensures
            r == (BoundSimpleTcpHandler {
                listeners,
                connection_settings: self.connection_settings,
                forward_sender: self.forward_sender,
            }),
    {
        BoundSimpleTcpHandler {
            listeners,
            connection_settings: self.connection_settings,
            forward_sender: self.forward_sender,
        }
    }
}

impl<L, S> BoundSimpleTcpHandler<L, S> {
    /// Takes a socket out, to be listened on for what belongs to it.
    pub fn next_listener(&mut self) -> (r: Option<(L, (u16, PossibleDestinations))>)
        ensures
            final(self).connection_settings == old(self).connection_settings,
            final(self).forward_sender == old(self).forward_sender,
            match r {
                Some(listener) => {
                    &&& old(self).listeners@.len() > 0
                    &&& listener == old(self).listeners@.last()
                    &&& final(self).listeners@ == old(self).listeners@.drop_last()
                },
                None => old(self).listeners@.len() == 0 && final(self).listeners@.len() == 0,
            },
    {
        self.listeners.pop()
    }

    /// Takes a socket back that is no longer listened on. One that was lost is done without.
    pub fn rejoin(&mut self, listener: Option<(L, (u16, PossibleDestinations))>)
        ensures
            final(self).connection_settings == old(self).connection_settings,
            final(self).forward_sender == old(self).forward_sender,
            match listener {
                Some(l) => final(self).listeners@ == old(self).listeners@.push(l),
                None => final(self).listeners@ == old(self).listeners@,
            },
    {
        if let Some(l) = listener {
            self.listeners.push(l);
        }
    }

    /// Gives the sockets up.
    pub fn unbind(self) -> (r: SimpleTcpHandler<S>)
        ensures
            r.destination_provider@ == bound_entries(self.listeners@),
            r.connection_settings == self.connection_settings,
            r.forward_sender == self.forward_sender,
    {
        let ghost all = self.listeners@;
        let mut listeners = self.listeners;
        let mut destination_provider: Vec<(u16, PossibleDestinations)> = Vec::new();
        while listeners.len() > 0
            invariant
                listeners.len() + destination_provider.len() == all.len(),
                listeners@ == all.skip(destination_provider.len() as int),
                destination_provider@ == bound_entries(all).take(destination_provider.len() as int),
            decreases listeners.len(),
        {
            let ghost k = destination_provider.len() as int;
            let (_, entry) = listeners.remove(0);
            destination_provider.push(entry);
            assert(listeners@ =~= all.skip(k + 1));
            assert(destination_provider@ =~= bound_entries(all).take(k + 1));
        }
        assert(bound_entries(all).take(all.len() as int) =~= bound_entries(all));
        SimpleTcpHandler {
            connection_settings: self.connection_settings,
            destination_provider,
            forward_sender: self.forward_sender,
        }
    }
}

/// A listener that is bound as planned and then unbound has all its ports back, in reverse order.
/// Doing both twice restores the order.
pub proof fn unbinding_undoes_binding<L, M>(
    ips: Seq<IpAddr>,
    provider: Seq<(u16, PossibleDestinations)>,
    listeners: Seq<(L, (u16, PossibleDestinations))>,
    again: Seq<(M, (u16, PossibleDestinations))>,
)
    requires
        ips.len() > 0,
        bound_entries(listeners) == planned_targets(ips, provider).map_values(
            |t: (SocketAddr, (u16, PossibleDestinations))| t.1,
        ),
        bound_entries(again) == planned_targets(ips, bound_entries(listeners)).map_values(
            |t: (SocketAddr, (u16, PossibleDestinations))| t.1,
        ),
    ensures
        bound_entries(listeners) == provider.reverse(),
        bound_entries(again) == provider,
{
    assert(bound_entries(listeners) =~= provider.reverse());
    assert(bound_entries(again) =~= provider);
}

/// Where an incoming connection goes, and the service that takes it there. `approved` is the
/// gatekeeper's word on the source, which counts only where there is a gatekeeper.
pub fn incoming_destination<S>(
    forward_sender: &ServiceForwardTable<S>,
    destinations: &PossibleDestinations,
    approved: bool,
) -> (r: Option<(InternalService, Destination)>)
    ensures
        match r {
            Some((service, destination)) => {
                &&& service == InternalService::LoadBalancer
                &&& destinations@.under(
                    !forward_sender@.contains_key(InternalService::GatekeeperAuth) || approved,
                ) == Some(destination@)
            },
            None => {
                &&& forward_sender@.contains_key(InternalService::GatekeeperAuth)
                &&& !approved
                &&& destinations.else_destination is None
            },
        },
{
    if forward_sender.has_service(&InternalService::GatekeeperAuth) {
        match destinations.try_get_inner(approved) {
            Some(destination) => Some((InternalService::LoadBalancer, destination.clone())),
            None => None,
        }
    } else {
        Some((InternalService::LoadBalancer, destinations.get_only_destination().clone()))
    }
}

} // verus!
