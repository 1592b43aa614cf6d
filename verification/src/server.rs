//! The server: its listeners and the services behind them.

use vstd::prelude::*;
use crate::addr::{IpAddr, SocketAddr};
use crate::config::settings::BindSettings;
use crate::config::Config;
use crate::listeners::tcp_rp::{
    bound_entries, planned_targets, BoundSimpleTcpHandler, SimpleTcpHandler, TcpBindPlan,
};
use crate::listeners::tls_http_rp::{sockets, BoundTlsRpHandler, TlsRpHandler};
use crate::services::load_balancer::{ascending, has_machine, DestinationMachine, LoadBalancer};
use crate::services::{InternalService, ServiceForwardTable, ServiceForwardTableBuilder};

verus! {

/// How many connections wait for the load balancer.
pub const LOAD_BALANCER_QUEUE: usize = 50;

/// How many signals of tasks wait to be read.
pub const TASK_SIGNAL_BUFFER: usize = 5000;

/// How many seconds the program waits before it ends when the server cannot be made.
pub const STOP_DELAY_SECS: u64 = 5;

/// Settings of the server as a whole.
#[derive(Clone, Copy, Debug, PartialEq, Eq, Structural)]
pub struct ServerSettings {
    pub forward_queue: usize,
}

/// Listeners that are not bound.
pub struct UnboundListeners<S> {
    pub tls_sni_handler: Option<TlsRpHandler<S>>,
    pub simple_tcp_handler: Option<SimpleTcpHandler<S>>,
}

/// Listeners with their sockets.
pub struct BoundListeners<L, S> {
    pub tls_sni_handler: Option<BoundTlsRpHandler<L, S>>,
    pub simple_tcp_handler: Option<BoundSimpleTcpHandler<L, S>>,
}

/// The listeners of a server.
pub enum ListenerInner<L, S> {
    Unbound(UnboundListeners<S>),
    Bound(BoundListeners<L, S>),
}

/// What the listeners are to be bound to.
pub struct ListenerBindPlan<S> {
    pub tls_sni_handler: Option<(TlsRpHandler<S>, Vec<SocketAddr>)>,
    pub simple_tcp_handler: Option<TcpBindPlan<S>>,
}

/// Why a server or its listeners cannot go on.
#[derive(Clone, Copy, Debug, PartialEq, Eq, Structural)]
pub enum ServerError {
    /// One of the listeners is not configured.
    NothingToListenOn,
    /// The listeners are bound already.
    CurrentlyBound,
    /// The listeners are not bound.
    NotBound,
    /// There is no socket to bind.
    NothingToBind,
    /// The settings of the server are missing.
    SettingsMissing,
}

impl<L, S> ListenerInner<L, S> {
    /// Makes the listeners and takes their configuration. Both have to be configured.
    pub fn new(config: &mut Config, forward_table: &ServiceForwardTable<S>) -> (r: Result<
        Self,
        ServerError,
    >)
        ensures
            *final(config) == (Config { tls_rp_config: None, tcp_rp_config: None, ..*old(config) }),
            match (old(config).tls_rp_config, old(config).tcp_rp_config) {
                (Some(tls_config), Some(tcp_config)) => {
                    &&& r matches Ok(ListenerInner::Unbound(unbound))
                    &&& unbound.tls_sni_handler matches Some(tls)
                    &&& unbound.simple_tcp_handler matches Some(tcp)
                    &&& tls.connection_settings == tls_config.connection_settings
                    &&& *tls.destination_provider == tls_config.destination_provider
                    &&& tls.forward_sender == *forward_table
                    &&& tcp.connection_settings == tcp_config.connection_settings
                    &&& tcp.destination_provider == tcp_config.destination_provider
                    &&& tcp.forward_sender == *forward_table
                },
                _ => r == Err::<Self, ServerError>(ServerError::NothingToListenOn),
            },
    {
        let tls_sni_handler = match config.tls_rp_config.take() {
            None => None,
            Some(c) => Some(TlsRpHandler::new(c, forward_table.clone())),
        };
        let simple_tcp_handler = match config.tcp_rp_config.take() {
            None => None,
            Some(c) => Some(SimpleTcpHandler::new(c, forward_table.clone())),
        };
        if tls_sni_handler.is_none() || simple_tcp_handler.is_none() {
            return Err(ServerError::NothingToListenOn);
        }
        Ok(ListenerInner::Unbound(UnboundListeners { tls_sni_handler, simple_tcp_handler }))
    }

    /// Decides what the listeners are to be bound to. They must not be bound already.
    pub fn bind_plan(self, bind_settings: &BindSettings) -> (r: Result<
        ListenerBindPlan<S>,
        ServerError,
    >)
        ensures
            match self {
                ListenerInner::Bound(_) => r == Err::<ListenerBindPlan<S>, ServerError>(
                    ServerError::CurrentlyBound,
                ),
                ListenerInner::Unbound(unbound) => {
                    let planned = sockets(
                        bind_settings.tls_rp_bind_port@,
                        bind_settings.bind_ip_addrs@,
                    );
                    if unbound.tls_sni_handler is Some && planned.len() == 0 {
                        r == Err::<ListenerBindPlan<S>, ServerError>(ServerError::NothingToBind)
                    } else {
                        r matches Ok(plan) && unbound.is_planned(*bind_settings, plan)
                    }
                },
            },
    {
        match self {
            ListenerInner::Bound(_) => Err(ServerError::CurrentlyBound),
            ListenerInner::Unbound(unbound) => {
                let tls_sni_handler = match unbound.tls_sni_handler {
                    None => None,
                    Some(h) => match h.bind_plan(bind_settings) {
                        Ok(list) => Some((h, list)),
                        Err(_) => {
                            return Err(ServerError::NothingToBind);
                        },
                    },
                };
                let simple_tcp_handler = match unbound.simple_tcp_handler {
                    None => None,
                    Some(h) => Some(h.bind_plan(bind_settings)),
                };
                Ok(ListenerBindPlan { tls_sni_handler, simple_tcp_handler })
            },
        }
    }

    /// Gives the sockets up. The listeners must be bound.
    pub fn unbind(self) -> (r: Result<Self, ServerError>)
        ensures
            match self {
                ListenerInner::Unbound(_) => r == Err::<Self, ServerError>(ServerError::NotBound),
                ListenerInner::Bound(bound) => {
                    r matches Ok(ListenerInner::Unbound(unbound)) && bound.is_unbound_as(unbound)
                },
            },
    {
        match self {
            ListenerInner::Unbound(_) => Err(ServerError::NotBound),
            ListenerInner::Bound(bound) => {
                let tls_sni_handler = match bound.tls_sni_handler {
                    None => None,
                    Some(h) => Some(h.unbind()),
                };
                let simple_tcp_handler = match bound.simple_tcp_handler {
                    None => None,
                    Some(h) => Some(h.unbind()),
                };
                Ok(ListenerInner::Unbound(UnboundListeners { tls_sni_handler, simple_tcp_handler }))
            },
        }
    }

    /// The two listeners, to be listened on side by side. They must be bound, and a bound server
    /// that is to listen has both of them.
    pub fn listening(self) -> (r: Result<
        (BoundTlsRpHandler<L, S>, BoundSimpleTcpHandler<L, S>),
        ServerError,
    >)
        requires
            self matches ListenerInner::Bound(bound) ==> bound.tls_sni_handler is Some
                && bound.simple_tcp_handler is Some,
        ensures
            match self {
                ListenerInner::Unbound(_) => r == Err::<
                    (BoundTlsRpHandler<L, S>, BoundSimpleTcpHandler<L, S>),
                    ServerError,
                >(ServerError::NotBound),
                ListenerInner::Bound(bound) => r == Ok::<
                    (BoundTlsRpHandler<L, S>, BoundSimpleTcpHandler<L, S>),
                    ServerError,
                >((bound.tls_sni_handler->0, bound.simple_tcp_handler->0)),
            },
    {
        match self {
            ListenerInner::Unbound(_) => Err(ServerError::NotBound),
            ListenerInner::Bound(bound) => Ok(
                (bound.tls_sni_handler.unwrap(), bound.simple_tcp_handler.unwrap()),
            ),
        }
    }

    /// What is left when listening is over: listeners that count as bound, though none is there.
    pub fn after_listening() -> (r: Self)
        ensures
            r == ListenerInner::<L, S>::Bound(
                BoundListeners { tls_sni_handler: None, simple_tcp_handler: None },
            ),
    {
        ListenerInner::Bound(BoundListeners { tls_sni_handler: None, simple_tcp_handler: None })
    }
}

impl<S> UnboundListeners<S> {
    /// The plan is to bind each listener that is there, to all its sockets.
    pub open spec fn is_planned(self, settings: BindSettings, plan: ListenerBindPlan<S>) -> bool {
        &&& match self.tls_sni_handler {
            Some(handler) => plan.tls_sni_handler matches Some((h, list)) && h == handler && list@
                == sockets(settings.tls_rp_bind_port@, settings.bind_ip_addrs@),
            None => plan.tls_sni_handler is None,
        }
        &&& match self.simple_tcp_handler {
            Some(handler) => {
                &&& plan.simple_tcp_handler matches Some(tcp)
                &&& tcp.targets@ == planned_targets(
                    settings.bind_ip_addrs@,
                    handler.destination_provider@,
                )
                &&& tcp.connection_settings == handler.connection_settings
                &&& tcp.forward_sender == handler.forward_sender
            },
            None => plan.simple_tcp_handler is None,
        }
    }
}

impl<L, S> BoundListeners<L, S> {
    /// The given listeners are these without their sockets.
    pub open spec fn is_unbound_as(self, unbound: UnboundListeners<S>) -> bool {
        &&& match self.tls_sni_handler {
            Some(handler) => unbound.tls_sni_handler == Some(handler.unbound()),
            None => unbound.tls_sni_handler is None,
        }
        &&& match self.simple_tcp_handler {
            Some(handler) => {
                &&& unbound.simple_tcp_handler matches Some(tcp)
                &&& tcp.destination_provider@ == bound_entries(handler.listeners@)
                &&& tcp.connection_settings == handler.connection_settings
                &&& tcp.forward_sender == handler.forward_sender
            },
            None => unbound.simple_tcp_handler is None,
        }
    }

    /// The listeners are bound as planned.
    pub open spec fn follows(self, plan: ListenerBindPlan<S>) -> bool {
        &&& match plan.tls_sni_handler {
            Some((handler, _)) => self.tls_sni_handler matches Some(bound) && bound
                == handler.bound_with(bound.listeners),
            None => self.tls_sni_handler is None,
        }
        &&& match plan.simple_tcp_handler {
            Some(tcp) => {
                &&& self.simple_tcp_handler matches Some(bound)
                &&& bound_entries(bound.listeners@) == tcp.targets@.map_values(
                    |t: (SocketAddr, (u16, crate::connection::PossibleDestinations))| t.1,
                )
                &&& bound.connection_settings == tcp.connection_settings
                &&& bound.forward_sender == tcp.forward_sender
            },
            None => self.simple_tcp_handler is None,
        }
    }
}

/// Listeners that are bound as planned and then unbound are what they were, but that the forwarded
/// ports come back in reverse order. That takes an address to bind to; without one the forwarded
/// ports are lost.
pub proof fn unbinding_undoes_binding<L, S>(
    before: UnboundListeners<S>,
    settings: BindSettings,
    plan: ListenerBindPlan<S>,
    bound: BoundListeners<L, S>,
    after: UnboundListeners<S>,
)
    requires
        before.is_planned(settings, plan),
        bound.follows(plan),
        bound.is_unbound_as(after),
    ensures
        after.tls_sni_handler == before.tls_sni_handler,
        after.simple_tcp_handler is Some == before.simple_tcp_handler is Some,
        before.simple_tcp_handler matches Some(tcp) ==> {
            let tcp_after = after.simple_tcp_handler->0;
            &&& tcp_after.connection_settings == tcp.connection_settings
            &&& tcp_after.forward_sender == tcp.forward_sender
            &&& tcp_after.destination_provider@ == if settings.bind_ip_addrs@.len() > 0 {
                tcp.destination_provider@.reverse()
            } else {
                Seq::empty()
            }
        },
{
    if let Some(tcp) = before.simple_tcp_handler {
        let tcp_after = after.simple_tcp_handler->0;
        if settings.bind_ip_addrs@.len() > 0 {
            assert(tcp_after.destination_provider@ =~= tcp.destination_provider@.reverse());
        } else {
            assert(tcp_after.destination_provider@ =~= Seq::empty());
        }
    }
}

/// A server.
pub struct Server<L, S, R, T, W> {
    pub listeners: ListenerInner<L, S>,
    pub settings: ServerSettings,
    pub lb_ip_addrs: Vec<IpAddr>,
    pub forward_table: ServiceForwardTable<S>,
    pub load_balancer: Option<LoadBalancer<R, T>>,
    pub conn_waiter: W,
}

impl<L, S, R, T, W> Server<L, S, R, T, W> {
    /// Makes a server and takes its configuration. `lb_sender` and `lb_receiver` are the ends of
    /// the queue of the load balancer, `conn_waiter` waits for its tasks and `conn_tracker` tracks
    /// them.
    pub fn new(
        config: &mut Config,
        lb_sender: S,
        lb_receiver: R,
        conn_waiter: W,
        conn_tracker: T,
    ) -> (r: Result<Self, ServerError>)
        ensures
            ({
                let listens = old(config).tls_rp_config is Some && old(config).tcp_rp_config
                    is Some;
                &&& *final(config) == (Config {
                    load_balancer_config: None,
                    tls_rp_config: None,
                    tcp_rp_config: None,
                    server_settings: if listens {
                        None
                    } else {
                        old(config).server_settings
                    },
                    ..*old(config)
                })
                &&& match r {
                    Ok(server) => {
                        &&& listens
                        &&& old(config).server_settings == Some(server.settings)
                        &&& server.is_made_from(*old(config), lb_sender)
                        &&& server.conn_waiter == conn_waiter
                        &&& server.load_balancer matches Some(lb) ==> lb.conn_receiver
                            == lb_receiver && lb.conn_tracker == conn_tracker
                    },
                    Err(ServerError::NothingToListenOn) => !listens,
                    Err(ServerError::SettingsMissing) => listens && old(config).server_settings
                        is None,
                    Err(_) => false,
                }
            }),
    {
        let mut forward_table_builder = ServiceForwardTableBuilder::new();
        let load_balancer = match config.load_balancer_config.take() {
            None => None,
            Some(c) => Some(LoadBalancer::new(c, lb_receiver, conn_tracker)),
        };
        let added = forward_table_builder.add(InternalService::LoadBalancer, lb_sender);
        assert(added is Ok);
        let forward_table = forward_table_builder.build();
        let listeners = match ListenerInner::new(config, &forward_table) {
            Ok(l) => l,
            Err(e) => {
                return Err(e);
            },
        };
        match config.server_settings.take() {
            Some(settings) => Ok(
                Server {
                    listeners,
                    settings,
                    lb_ip_addrs: Vec::new(),
                    forward_table,
                    load_balancer,
                    conn_waiter,
                },
            ),
            None => Err(ServerError::SettingsMissing),
        }
    }

    /// The parts of the server are those of the configuration. Connections can be forwarded to the
    /// load balancer and to nothing else, be it there or not.
    pub open spec fn is_made_from(self, config: Config, lb_sender: S) -> bool {
        &&& self.lb_ip_addrs@.len() == 0
        &&& self.forward_table@ == Map::<InternalService, S>::empty().insert(
            InternalService::LoadBalancer,
            lb_sender,
        )
        &&& match config.load_balancer_config {
            Some(c) => {
                &&& self.load_balancer matches Some(lb)
                &&& ascending(lb.machines@)
                &&& forall|ip: IpAddr| #[trigger]
                    has_machine(lb.machines@, ip) <==> c.addresses@.contains(ip)
                &&& forall|i: int|
                    0 <= i < lb.machines@.len() ==> (#[trigger] lb.machines@[i]).1
                        == DestinationMachine::fresh(1)
            },
            None => self.load_balancer is None,
        }
        &&& self.listeners matches ListenerInner::Unbound(unbound)
        &&& unbound.tls_sni_handler matches Some(tls)
        &&& unbound.simple_tcp_handler matches Some(tcp)
        &&& config.tls_rp_config matches Some(tls_config)
        &&& config.tcp_rp_config matches Some(tcp_config)
        &&& tls.connection_settings == tls_config.connection_settings
        &&& *tls.destination_provider == tls_config.destination_provider
        &&& tls.forward_sender == self.forward_table
        &&& tcp.connection_settings == tcp_config.connection_settings
        &&& tcp.destination_provider == tcp_config.destination_provider
        &&& tcp.forward_sender == self.forward_table
    }
}

} // verus!
