//! The listeners of a server together, and how a server is made.

use vstd::prelude::*;
use crate::addr::IpAddr;
use crate::config::settings::BindSettings;
use crate::config::Config;
use crate::listeners::tcp_rp::BoundSimpleTcpHandler;
use crate::listeners::tls_http_rp::{every_pair_has_a_socket, BoundTlsRpHandler};
use crate::server::{
    ListenerBindPlan, ListenerInner, Server, ServerError, LOAD_BALANCER_QUEUE, STOP_DELAY_SECS,
    TASK_SIGNAL_BUFFER,
};
use crate::services::load_balancer::has_machine;
use crate::services::{InternalService, ServiceForwardTable};

verus! {

/// Both listeners are made from their configuration, which is taken, and get the same services.
/// Where one is not configured none is made.
pub proof fn listeners_are_made_together<L, S>(
    before: Config,
    table: &ServiceForwardTable<S>,
    r: Result<ListenerInner<L, S>, ServerError>,
    after: Config,
)
    requires
        exists|c: &mut Config|
            *c == before && *final(c) == after && #[trigger] call_ensures(
                ListenerInner::<L, S>::new,
                (c, table),
                r,
            ),
    ensures
        after.tls_rp_config is None,
        after.tcp_rp_config is None,
        after.bind_settings == before.bind_settings,
        after.server_settings == before.server_settings,
        after.load_balancer_config == before.load_balancer_config,
        after.ssh_tarpit_config == before.ssh_tarpit_config,
        r is Ok <==> before.tls_rp_config is Some && before.tcp_rp_config is Some,
        r matches Err(e) ==> e == ServerError::NothingToListenOn,
        r matches Ok(listeners) ==> {
            let tls = listeners->Unbound_0.tls_sni_handler->0;
            let tcp = listeners->Unbound_0.simple_tcp_handler->0;
            &&& listeners is Unbound
            &&& listeners->Unbound_0.tls_sni_handler is Some
            &&& listeners->Unbound_0.simple_tcp_handler is Some
            &&& tls.connection_settings == before.tls_rp_config->0.connection_settings
            &&& *tls.destination_provider == before.tls_rp_config->0.destination_provider
            &&& tls.forward_sender == *table
            &&& tcp.connection_settings == before.tcp_rp_config->0.connection_settings
            &&& tcp.destination_provider == before.tcp_rp_config->0.destination_provider
            &&& tcp.forward_sender == *table
        },
{
}

/// Listeners that are bound cannot be bound again. Of those that are not, the one for host names
/// needs an address and a port, and is bound at all of them; every forwarded port is bound on the
/// first address.
pub proof fn listeners_are_bound_together<L, S>(
    listeners: ListenerInner<L, S>,
    settings: &BindSettings,
    r: Result<ListenerBindPlan<S>, ServerError>,
    p: int,
    i: int,
    k: int,
)
    requires
        call_ensures(ListenerInner::<L, S>::bind_plan, (listeners, settings), r),
    ensures
        ({
            let ports = settings.tls_rp_bind_port@;
            let ips = settings.bind_ip_addrs@;
            match listeners {
                ListenerInner::Bound(_) => r == Err::<ListenerBindPlan<S>, ServerError>(
                    ServerError::CurrentlyBound,
                ),
                ListenerInner::Unbound(unbound) => {
                    if unbound.tls_sni_handler is Some && (ports.len() == 0 || ips.len() == 0) {
                        r == Err::<ListenerBindPlan<S>, ServerError>(ServerError::NothingToBind)
                    } else {
                        &&& r is Ok
                        &&& r->Ok_0.tls_sni_handler is Some == unbound.tls_sni_handler is Some
                        &&& r->Ok_0.simple_tcp_handler is Some == unbound.simple_tcp_handler is Some
                        &&& unbound.tls_sni_handler matches Some(tls) ==> {
                            let (handler, list) = r->Ok_0.tls_sni_handler->0;
                            &&& handler == tls
                            &&& list@.len() == ports.len() * ips.len()
                            &&& 0 <= p < ports.len() && 0 <= i < ips.len() ==> list@[p * ips.len()
                                + i].ip == ips[i] && list@[p * ips.len() + i].port == ports[p]
                        }
                        &&& unbound.simple_tcp_handler matches Some(tcp) ==> {
                            let plan = r->Ok_0.simple_tcp_handler->0;
                            let n = tcp.destination_provider@.len();
                            &&& plan.connection_settings == tcp.connection_settings
                            &&& plan.forward_sender == tcp.forward_sender
                            &&& ips.len() == 0 ==> plan.targets@.len() == 0
                            &&& ips.len() > 0 ==> plan.targets@.len() == n
                            &&& ips.len() > 0 && 0 <= k < n ==> {
                                let entry = tcp.destination_provider@[n - 1 - k];
                                &&& plan.targets@[k].0.ip == ips[0]
                                &&& plan.targets@[k].0.port == entry.0
                                &&& plan.targets@[k].1 == entry
                            }
                        }
                    }
                },
            }
        }),
{
    let m = settings.tls_rp_bind_port@.len();
    let n = settings.bind_ip_addrs@.len();
    every_pair_has_a_socket(settings.tls_rp_bind_port@, settings.bind_ip_addrs@, p, i);
    if m == 0 || n == 0 {
        assert(m * n == 0) by (nonlinear_arith)
            requires
                m == 0 || n == 0,
        ;
    } else {
        assert(m * n > 0) by (nonlinear_arith)
            requires
                m > 0,
                n > 0,
        ;
    }
}

/// Listeners that are not bound cannot be unbound. Those that are keep everything but their
/// sockets, and every socket gives back the port and the destinations that belong to it.
pub proof fn listeners_are_unbound_together<L, S>(
    listeners: ListenerInner<L, S>,
    r: Result<ListenerInner<L, S>, ServerError>,
    k: int,
)
    requires
        call_ensures(ListenerInner::<L, S>::unbind, (listeners,), r),
    ensures
        match listeners {
            ListenerInner::Unbound(_) => r == Err::<ListenerInner<L, S>, ServerError>(
                ServerError::NotBound,
            ),
            ListenerInner::Bound(bound) => {
                &&& r is Ok
                &&& r->Ok_0 is Unbound
                &&& r->Ok_0->Unbound_0.tls_sni_handler is Some == bound.tls_sni_handler is Some
                &&& r->Ok_0->Unbound_0.simple_tcp_handler is Some
                    == bound.simple_tcp_handler is Some
                &&& bound.tls_sni_handler matches Some(tls) ==> {
                    let handler = r->Ok_0->Unbound_0.tls_sni_handler->0;
                    &&& handler.connection_settings == tls.connection_settings
                    &&& handler.destination_provider == tls.destination_provider
                    &&& handler.forward_sender == tls.forward_sender
                }
                &&& bound.simple_tcp_handler matches Some(tcp) ==> {
                    let handler = r->Ok_0->Unbound_0.simple_tcp_handler->0;
                    &&& handler.connection_settings == tcp.connection_settings
                    &&& handler.forward_sender == tcp.forward_sender
                    &&& handler.destination_provider@.len() == tcp.listeners@.len()
                    &&& 0 <= k < tcp.listeners@.len() ==> handler.destination_provider@[k]
                        == tcp.listeners@[k].1
                }
            },
        },
{
}

/// Listeners that are bound are listened on, both of them. Afterwards they count as bound, though
/// none is left.
pub proof fn bound_listeners_are_listened_on<L, S>(
    listeners: ListenerInner<L, S>,
    r: Result<(BoundTlsRpHandler<L, S>, BoundSimpleTcpHandler<L, S>), ServerError>,
    after: ListenerInner<L, S>,
)
    requires
        call_ensures(ListenerInner::<L, S>::listening, (listeners,), r),
        call_ensures(ListenerInner::<L, S>::after_listening, (), after),
    ensures
        listeners is Unbound ==> (r matches Err(e) && e == ServerError::NotBound),
        listeners matches ListenerInner::Bound(bound) ==> {
            &&& r is Ok
            &&& bound.tls_sni_handler matches Some(tls) ==> r->Ok_0.0 == tls
            &&& bound.simple_tcp_handler matches Some(tcp) ==> r->Ok_0.1 == tcp
        },
        after is Bound,
        after->Bound_0.tls_sni_handler is None,
        after->Bound_0.simple_tcp_handler is None,
{
}

/// A server is made where both listeners and the settings are configured. It is made from the
/// configuration, which is taken; its load balancer is there where one is configured, and
/// connections can be forwarded to that alone.
pub proof fn servers_are_made_from_their_configuration<L, S, R, T, W>(
    before: Config,
    sender: S,
    receiver: R,
    waiter: W,
    tracker: T,
    r: Result<Server<L, S, R, T, W>, ServerError>,
    after: Config,
    ip: IpAddr,
    service: InternalService,
)
    requires
        exists|c: &mut Config|
            *c == before && *final(c) == after && #[trigger] call_ensures(
                Server::<L, S, R, T, W>::new,
                (c, sender, receiver, waiter, tracker),
                r,
            ),
    ensures
        ({
            let listens = before.tls_rp_config is Some && before.tcp_rp_config is Some;
            &&& !listens ==> r == Err::<Server<L, S, R, T, W>, ServerError>(
                ServerError::NothingToListenOn,
            )
            &&& listens && before.server_settings is None ==> r == Err::<
                Server<L, S, R, T, W>,
                ServerError,
            >(ServerError::SettingsMissing)
            &&& listens && before.server_settings is Some ==> r is Ok
            &&& after.load_balancer_config is None
            &&& after.tls_rp_config is None
            &&& after.tcp_rp_config is None
            &&& after.bind_settings == before.bind_settings
            &&& after.ssh_tarpit_config == before.ssh_tarpit_config
            &&& listens ==> after.server_settings is None
            &&& !listens ==> after.server_settings == before.server_settings
        }),
        r matches Ok(server) ==> {
            &&& Some(server.settings) == before.server_settings
            &&& server.conn_waiter == waiter
            &&& server.lb_ip_addrs@.len() == 0
            &&& server.forward_table@.contains_key(service) <==> service
                == InternalService::LoadBalancer
            &&& server.forward_table@[InternalService::LoadBalancer] == sender
            &&& server.load_balancer is Some <==> before.load_balancer_config is Some
            &&& server.load_balancer matches Some(lb) ==> {
                &&& lb.conn_receiver == receiver
                &&& lb.conn_tracker == tracker
                &&& before.load_balancer_config->0.addresses@.contains(ip) <==> exists|k: int|
                    0 <= k < lb.machines@.len() && #[trigger] lb.machines@[k].0 == ip
            }
        },
        r matches Ok(server) ==> {
            let tls = server.listeners->Unbound_0.tls_sni_handler->0;
            let tcp = server.listeners->Unbound_0.simple_tcp_handler->0;
            &&& server.listeners is Unbound
            &&& server.listeners->Unbound_0.tls_sni_handler is Some
            &&& server.listeners->Unbound_0.simple_tcp_handler is Some
            &&& tls.connection_settings == before.tls_rp_config->0.connection_settings
            &&& *tls.destination_provider == before.tls_rp_config->0.destination_provider
            &&& tls.forward_sender == server.forward_table
            &&& tcp.connection_settings == before.tcp_rp_config->0.connection_settings
            &&& tcp.destination_provider == before.tcp_rp_config->0.destination_provider
            &&& tcp.forward_sender == server.forward_table
        },
        LOAD_BALANCER_QUEUE == 50,
        TASK_SIGNAL_BUFFER == 5000,
        STOP_DELAY_SECS == 5,
{
    if r is Ok && r->Ok_0.load_balancer is Some {
        let machines = r->Ok_0.load_balancer->0.machines@;
        assert(has_machine(machines, ip) <==> exists|k: int|
            0 <= k < machines.len() && #[trigger] machines[k].0 == ip);
    }
}

} // verus!
