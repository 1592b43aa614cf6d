use rusty_valve::addr::IpAddr;
use rusty_valve::config::settings::{ConnectionSettings, Seconds};
use rusty_valve::config::{Config, ConfigBuilder};
use rusty_valve::connection::{Destination, PossibleDestinations};
use rusty_valve::listeners::tcp_rp::SimpleTcpHandlerConfig;
use rusty_valve::server::{
    BoundListeners, ListenerInner, Server, ServerError, ServerSettings,
};
use rusty_valve::services::InternalService;

type TestServer = Server<&'static str, char, char, char, char>;

fn config() -> Config {
    let mut builder = ConfigBuilder::new();
    builder.bind_addresses.push(IpAddr::V4(1));
    builder.load_balancer_addrs.push(IpAddr::V4(2));
    builder.tls_rp_dest_provider.insert(
        "example.com".to_string(),
        PossibleDestinations::without_else(Destination::PortOnly(443)),
    );
    for port in [1, 2] {
        builder
            .tcp_rp_dest_provider
            .push((port, PossibleDestinations::without_else(Destination::PortOnly(port))));
    }
    builder.build()
}

fn made(config: &mut Config) -> Result<TestServer, ServerError> {
    Server::new(config, 's', 'r', 'w', 't')
}

fn refused(config: &mut Config) -> Option<ServerError> {
    made(config).err()
}

#[test]
fn server_takes_its_configuration() {
    let mut config = config();
    let server = made(&mut config).ok().unwrap();
    assert_eq!(server.settings, ServerSettings { forward_queue: 50 });
    assert!(server.lb_ip_addrs.is_empty());
    assert_eq!(server.conn_waiter, 'w');
    assert_eq!(server.forward_table.forwarder(&InternalService::LoadBalancer), Ok(&'s'));
    assert!(!server.forward_table.has_service(&InternalService::GatekeeperAuth));
    let balancer = server.load_balancer.unwrap();
    assert_eq!((balancer.conn_receiver, balancer.conn_tracker), ('r', 't'));
    assert_eq!(balancer.machines.position(IpAddr::V4(2)), Some(0));
    assert!(config.tls_rp_config.is_none());
    assert!(config.tcp_rp_config.is_none());
    assert!(config.load_balancer_config.is_none());
    assert!(config.server_settings.is_none());
    assert!(config.bind_settings.is_some());
    // nothing is left for a second one
    assert_eq!(refused(&mut config), Some(ServerError::NothingToListenOn));
}

#[test]
fn server_needs_both_listeners_and_its_settings() {
    let mut without_tls = config();
    without_tls.tls_rp_config = None;
    assert_eq!(refused(&mut without_tls), Some(ServerError::NothingToListenOn));
    assert!(without_tls.tcp_rp_config.is_none());
    assert!(without_tls.server_settings.is_some());
    let mut without_tcp = config();
    without_tcp.tcp_rp_config = None;
    assert_eq!(refused(&mut without_tcp), Some(ServerError::NothingToListenOn));
    let mut without_settings = config();
    without_settings.server_settings = None;
    assert_eq!(refused(&mut without_settings), Some(ServerError::SettingsMissing));
    let mut without_balancer = config();
    without_balancer.load_balancer_config = None;
    let server = made(&mut without_balancer).ok().unwrap();
    assert!(server.load_balancer.is_none());
    assert!(server.forward_table.has_service(&InternalService::LoadBalancer));
}

#[test]
fn listeners_are_bound_and_unbound() {
    let mut config = config();
    let bind_settings = config.bind_settings.clone().unwrap();
    let server = made(&mut config).ok().unwrap();
    let plan = server.listeners.bind_plan(&bind_settings).ok().unwrap();
    let (tls, sockets) = plan.tls_sni_handler.unwrap();
    assert_eq!(sockets.iter().map(|s| s.port).collect::<Vec<u16>>(), vec![4080, 4443]);
    let mut tcp = plan.simple_tcp_handler.unwrap();
    let targets: Vec<_> = tcp.targets.drain(..).map(|(_, entry)| ("tcp", entry)).collect();
    assert_eq!(targets.iter().map(|t| t.1 .0).collect::<Vec<u16>>(), vec![2, 1]);
    let bound: ListenerInner<&str, char> = ListenerInner::Bound(BoundListeners {
        tls_sni_handler: Some(tls.bound(vec!["tls"; 2])),
        simple_tcp_handler: Some(tcp.bound(targets)),
    });
    let unbound = bound.unbind().ok().unwrap();
    let ListenerInner::Unbound(listeners) = &unbound else { panic!("not unbound") };
    let tcp = listeners.simple_tcp_handler.as_ref().unwrap();
    assert_eq!(tcp.destination_provider[0].0, 2);
    assert_eq!(tcp.connection_settings, ConnectionSettings { timeout: Seconds { secs: 5 } });
    assert!(listeners
        .tls_sni_handler
        .as_ref()
        .unwrap()
        .destination_provider
        .get("example.com")
        .is_some());
    assert_eq!(unbound.unbind().err(), Some(ServerError::NotBound));
}

#[test]
fn listeners_in_the_wrong_state() {
    let mut config = config();
    let bind_settings = config.bind_settings.clone().unwrap();
    let server = made(&mut config).ok().unwrap();
    assert_eq!(server.listeners.listening().err(), Some(ServerError::NotBound));
    let over: ListenerInner<&str, char> = ListenerInner::after_listening();
    assert_eq!(over.bind_plan(&bind_settings).err(), Some(ServerError::CurrentlyBound));
    let ended: ListenerInner<&str, char> = ListenerInner::after_listening();
    let ListenerInner::Unbound(left) = ended.unbind().ok().unwrap() else {
        panic!("not unbound")
    };
    assert!(left.tls_sni_handler.is_none() && left.simple_tcp_handler.is_none());
}

#[test]
fn listeners_need_an_address() {
    let mut config = config();
    let mut bind_settings = config.bind_settings.clone().unwrap();
    bind_settings.bind_ip_addrs = std::sync::Arc::new(vec![]);
    let server = made(&mut config).ok().unwrap();
    assert_eq!(
        server.listeners.bind_plan(&bind_settings).err(),
        Some(ServerError::NothingToBind)
    );
}

#[test]
fn bound_listeners_are_handed_out() {
    let mut config = config();
    config.tcp_rp_config = Some(SimpleTcpHandlerConfig {
        connection_settings: ConnectionSettings { timeout: Seconds { secs: 9 } },
        destination_provider: vec![],
    });
    let bind_settings = config.bind_settings.clone().unwrap();
    let server = made(&mut config).ok().unwrap();
    let plan = server.listeners.bind_plan(&bind_settings).ok().unwrap();
    let bound: ListenerInner<&str, char> = ListenerInner::Bound(BoundListeners {
        tls_sni_handler: plan.tls_sni_handler.map(|(h, _)| h.bound(vec!["tls"])),
        simple_tcp_handler: plan.simple_tcp_handler.map(|p| p.bound(vec![])),
    });
    let (tls, tcp) = bound.listening().ok().unwrap();
    assert_eq!(tls.listeners, vec!["tls"]);
    assert!(tcp.listeners.is_empty());
    assert_eq!(tcp.connection_settings.timeout, Seconds { secs: 9 });
}
