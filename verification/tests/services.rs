use rusty_valve::addr::{IpAddr, SocketAddr};
use rusty_valve::config::settings::{ConnectionSettings, Seconds};
use rusty_valve::connection::{ConnectionInner, Destination, ForwardedConnection};
use rusty_valve::services::gatekeeper_auth::{served_stream, GatekeeperAuth};
use rusty_valve::services::load_balancer::{
    can_pick, can_route, connectable, joined, pick_best_ip, route, AttemptStep, ConnectOutcome,
    DestinationMachine, LoadBalancer, LoadBalancerConfig, LoadBalancerService,
    LoadBalancerServiceError, MachineTable, PortProtocol, Route, UnknownProtocol,
};
use rusty_valve::services::ssh_tarpit::{
    trapped_stream, Settings, SshTarpit, SshTarpitConfig, Tarpit, TarpitStage,
};
use rusty_valve::services::{
    forward_outcome, ForwardError, InternalService, ServiceForwardTableBuilder, UnknownService,
};

fn connection(inner: ConnectionInner<u8>) -> ForwardedConnection<u8> {
    ForwardedConnection::new_conn_with_inner(
        inner,
        SocketAddr::new(IpAddr::V4(1), 2),
        ConnectionSettings { timeout: Seconds { secs: 5 } },
        Destination::PortOnly(3),
    )
}

/// Three machines, of which the middle one is the least loaded.
fn machines() -> MachineTable {
    let mut table = MachineTable::new(&vec![IpAddr::V4(3), IpAddr::V4(1), IpAddr::V4(2)]);
    for i in 0..table.len() {
        let (_, mut machine) = table.entry(i);
        machine.reachable = true;
        machine.tracked_connections = [4, 1, 2][i];
        table.update(i, machine);
    }
    table
}

fn order(picked: Vec<(IpAddr, DestinationMachine)>) -> Vec<IpAddr> {
    picked.into_iter().map(|e| e.0).collect()
}

#[test]
fn services_by_name() {
    for service in [
        InternalService::SshTarpit,
        InternalService::LoadBalancer,
        InternalService::GatekeeperAuth,
        InternalService::TestService,
    ] {
        assert_eq!(InternalService::from_str(service.slug_name(), true), Ok(service));
    }
    assert_eq!(InternalService::SshTarpit.slug_name(), "ssh-tarpit");
    assert_eq!(InternalService::from_str("SSH-tarpit", false), Err(UnknownService {}));
    assert_eq!(InternalService::from_str("", false), Err(UnknownService {}));
}

#[test]
fn forward_table() {
    let mut builder = ServiceForwardTableBuilder::new();
    assert_eq!(builder.add(InternalService::LoadBalancer, 'a'), Ok(()));
    assert_eq!(
        builder.add(InternalService::LoadBalancer, 'b'),
        Err(ForwardError::AlreadyEntered)
    );
    let table = builder.build();
    assert!(table.has_service(&InternalService::LoadBalancer));
    assert!(!table.has_service(&InternalService::SshTarpit));
    assert_eq!(table.clone().forwarder(&InternalService::LoadBalancer), Ok(&'a'));
    assert_eq!(
        table.forwarder(&InternalService::SshTarpit),
        Err(ForwardError::NoForwarder(InternalService::SshTarpit))
    );
    assert_eq!(forward_outcome(&InternalService::LoadBalancer, true), Ok(()));
    assert_eq!(
        forward_outcome(&InternalService::LoadBalancer, false),
        Err(ForwardError::SendFailed(InternalService::LoadBalancer))
    );
}

#[test]
fn machine_loads() {
    let mut machine = DestinationMachine::new(3);
    assert!(!machine.available());
    assert_eq!(machine.weighted_load(), usize::MAX);
    machine.reachable = true;
    assert_eq!(machine.weighted_load(), 0);
    machine.tracked_connections = 2;
    machine.add_conn();
    assert_eq!(machine.weighted_load(), 9);
    assert_eq!(machine.checked_load(), Some(9));
    machine.sub_conn();
    assert_eq!(machine.weighted_load(), 6);
    machine.sub_conn();
    assert_eq!(machine.active_connections_by_peers, usize::MAX);
    assert_eq!(machine.checked_load(), None);
    machine.add_conn();
    assert_eq!(machine.active_connections_by_peers, 0);
    machine.weight = usize::MAX;
    assert_eq!(machine.checked_load(), None);
}

#[test]
fn machine_table_has_every_address_once() {
    let config = LoadBalancerConfig {
        addresses: vec![IpAddr::V6(1), IpAddr::V4(2), IpAddr::V4(1), IpAddr::V4(2)],
    };
    let balancer = LoadBalancer::new(config, 'r', 't');
    assert_eq!(balancer.conn_receiver, 'r');
    assert_eq!(balancer.conn_tracker, 't');
    let table = balancer.machines;
    let listed: Vec<IpAddr> = (0..table.len()).map(|i| table.entry(i).0).collect();
    assert_eq!(listed, vec![IpAddr::V4(1), IpAddr::V4(2), IpAddr::V6(1)]);
    assert_eq!(table.entry(0).1, DestinationMachine::new(1));
    assert_eq!(table.position(IpAddr::V4(2)), Some(1));
    assert_eq!(table.position(IpAddr::V4(3)), None);
}

#[test]
fn least_loaded_machines_first() {
    let table = machines();
    assert!(can_pick(None, &table));
    assert_eq!(
        order(pick_best_ip(None, &table)),
        vec![IpAddr::V4(2), IpAddr::V4(3), IpAddr::V4(1)]
    );
    let list = vec![IpAddr::V4(9), IpAddr::V4(1), IpAddr::V4(3)];
    assert_eq!(order(pick_best_ip(Some(&list), &table)), vec![IpAddr::V4(3), IpAddr::V4(1)]);
    assert!(pick_best_ip(Some(&vec![]), &table).is_empty());
}

#[test]
fn machines_that_cannot_be_reached_come_last() {
    let mut table = machines();
    let (_, mut machine) = table.entry(1);
    machine.reachable = false;
    table.update(1, machine);
    assert_eq!(
        order(pick_best_ip(None, &table)),
        vec![IpAddr::V4(3), IpAddr::V4(1), IpAddr::V4(2)]
    );
    // none has been reached yet: the order of the addresses
    let fresh = MachineTable::new(&vec![IpAddr::V4(2), IpAddr::V4(1)]);
    assert_eq!(order(pick_best_ip(None, &fresh)), vec![IpAddr::V4(1), IpAddr::V4(2)]);
}

#[test]
fn loads_that_cannot_be_compared() {
    let mut table = machines();
    let (_, mut machine) = table.entry(1);
    machine.weight = usize::MAX;
    machine.tracked_connections = 2;
    table.update(1, machine);
    assert!(!can_pick(None, &table));
    assert!(!can_route(&Destination::PortOnly(80), &table));
    assert!(can_pick(Some(&vec![IpAddr::V4(2)]), &table));
    assert!(can_pick(Some(&vec![IpAddr::V4(1), IpAddr::V4(3)]), &table));
    assert!(can_route(&Destination::InternalService(InternalService::SshTarpit), &table));
}

#[test]
fn ports_are_tried_on_every_machine() {
    let Route::Attempt(mut attempts) = route(&Destination::PortOnly(80), &machines()) else {
        panic!("a port is tried on the machines")
    };
    let at = |n: u32| AttemptStep::Connect(SocketAddr::new(IpAddr::V4(n), 80));
    assert_eq!(attempts.next(), at(2));
    assert_eq!(attempts.after(false), at(3));
    assert_eq!(attempts.after(false), at(1));
    assert_eq!(attempts.after(false), AttemptStep::Exhausted);
    assert_eq!(attempts.next(), AttemptStep::Exhausted);
}

#[test]
fn the_first_machine_that_answers_is_used() {
    let list = Destination::from_str("0.0.0.1,0.0.0.2,0.0.0.7:80", false).unwrap();
    let Route::Attempt(mut attempts) = route(&list, &machines()) else {
        panic!("a list is tried in turn")
    };
    let at = |n: u32| AttemptStep::Connect(SocketAddr::new(IpAddr::V4(n), 80));
    assert_eq!(attempts.next(), at(2));
    assert_eq!(attempts.after(false), at(1));
    assert_eq!(attempts.after(true), AttemptStep::Connected);
}

#[test]
fn sockets_have_to_be_on_a_machine() {
    let known = SocketAddr::new(IpAddr::V4(1), 80);
    let unknown = SocketAddr::new(IpAddr::V4(4), 80);
    assert!(matches!(route(&Destination::Socket(known), &machines()), Route::Only(s) if s == known));
    assert!(matches!(
        route(&Destination::Socket(unknown), &machines()),
        Route::UnknownMachine(s) if s == unknown
    ));
    assert!(matches!(
        route(&Destination::InternalService(InternalService::LoadBalancer), &machines()),
        Route::NotServed
    ));
}

#[test]
fn connections_are_joined_or_given_back() {
    assert!(matches!(connectable(ConnectionInner::Tcp(7)), Ok(7)));
    assert!(matches!(
        connectable::<u8>(ConnectionInner::Quic),
        Err(ConnectionInner::Quic)
    ));
    assert!(matches!(joined(7, ConnectOutcome::Connected('d')), Ok((7, 'd'))));
    assert!(matches!(
        joined::<u8, char>(7, ConnectOutcome::Failed),
        Err(ConnectionInner::Tcp(7))
    ));
    assert!(matches!(
        joined::<u8, char>(7, ConnectOutcome::TimedOut),
        Err(ConnectionInner::Tcp(7))
    ));
}

#[test]
fn ports_with_protocols() {
    let service = |port, port_protocol| Ok(LoadBalancerService { port, port_protocol });
    assert_eq!(LoadBalancerService::from_str("80/TCP"), service(80, PortProtocol::Tcp));
    assert_eq!(LoadBalancerService::from_str("+443/quic"), service(443, PortProtocol::Quic));
    assert_eq!(LoadBalancerService::from_str("80"), Err(LoadBalancerServiceError::Split));
    assert_eq!(LoadBalancerService::from_str("x/tcp"), Err(LoadBalancerServiceError::Port));
    assert_eq!(LoadBalancerService::from_str("65536/tcp"), Err(LoadBalancerServiceError::Port));
    assert_eq!(LoadBalancerService::from_str("80/udp"), Err(LoadBalancerServiceError::Protocol));
    assert_eq!(LoadBalancerService::from_str("80/tcp/x"), Err(LoadBalancerServiceError::Protocol));
    assert_eq!(PortProtocol::from_str("qUIC"), Ok(PortProtocol::Quic));
    assert_eq!(PortProtocol::from_str("tcp "), Err(UnknownProtocol {}));
}

#[test]
fn tarpit_goes_round_its_lines() {
    let config = SshTarpitConfig { max_connections: 2, banner_repeat_time: Seconds { secs: 10 } };
    let tarpit = SshTarpit::new(config, 'r', 't');
    assert_eq!((tarpit.forward_receiver, tarpit.conn_tracker), ('r', 't'));
    let settings = tarpit.settings;
    assert_eq!(
        settings,
        Settings { max_connections: 2, banner_repeat_time: Seconds { secs: 10 } }
    );
    let mut client = Tarpit::enter(1, settings, 3);
    for line in [0, 1, 2, 0, 1] {
        assert_eq!(client.stage(), TarpitStage::AwaitWritable);
        client = client.advance(true);
        assert_eq!(client.stage(), TarpitStage::Write(line));
        // a line that could not be written changes nothing
        client = client.advance(line == 1);
        assert_eq!(client.stage(), TarpitStage::Rest(Seconds { secs: 10 }));
        client = client.advance(true);
    }
    client = client.advance(false);
    assert_eq!(client.stage(), TarpitStage::End);
    assert_eq!(client.advance(true).stage(), TarpitStage::End);
}

#[test]
fn tarpit_is_full_or_has_nothing_to_say() {
    let settings = Settings { max_connections: 2, banner_repeat_time: Seconds { secs: 10 } };
    assert_eq!(Tarpit::enter(2, settings, 3).stage(), TarpitStage::End);
    assert_eq!(Tarpit::enter(3, settings, 3).stage(), TarpitStage::End);
    assert_eq!(Tarpit::enter(0, settings, 0).stage(), TarpitStage::End);
    assert_eq!(trapped_stream(connection(ConnectionInner::Tcp(7))), Some(7));
    assert_eq!(trapped_stream(connection(ConnectionInner::Quic)), None);
}

#[test]
fn gatekeeper_serves_tcp() {
    let gatekeeper = GatekeeperAuth::new('r', 't');
    assert_eq!((gatekeeper.forward_receiver, gatekeeper.task_tracker), ('r', 't'));
    assert_eq!(served_stream(connection(ConnectionInner::Tcp(7))), Some(7));
    assert_eq!(served_stream(connection(ConnectionInner::Quic)), None);
}
