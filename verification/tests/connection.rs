use rusty_valve::addr::display::socket_string;
use rusty_valve::addr::{parse_ip, IpAddr, SocketAddr};
use rusty_valve::config::ini_file::TryFromConfig;
use rusty_valve::config::settings::{ConnectionSettings, Seconds};
use rusty_valve::connection::{
    ConnectionInner, Destination, DestinationError, ForwardedConnection, PossibleDestinations,
};
use rusty_valve::services::InternalService;

#[test]
fn parse_destination() {
    let pass_port_only = "4000";
    let pass_socket = "127.0.0.1:10";
    let pass_port_and_addrs = "127.0.0.1,[::1]:4000"; // Port should be same as pass_port_only
    let pass_service = "test-service";
    let fail_two_ports = "127.0.0.1:4000:4000";
    let fail_invalid_ip = "12222.1521.2161:10";
    let fail_invalid_port = "four20";

    let ip_addrs = vec![
        parse_ip("127.0.0.1").expect("parsable IPv4 address string in ip_addrs vector"),
        parse_ip("::1")
            .expect("parsable IPv6 address string in ip_addrs vector (remove brackets)"),
    ];
    let port = pass_port_only.parse().expect("parsable pass_port_only");
    let comp_pass_port_only = Destination::with_port(port);
    let comp_pass_socket =
        Destination::with_socket_addr(SocketAddr::new(parse_ip("127.0.0.1").expect("parsable pass_socket"), 10));
    let comp_pass_port_and_addrs = Destination::with_port_and_pref_addrs(port, ip_addrs);
    let comp_pass_service = Destination::with_internal_service(
        InternalService::from_str(pass_service, true).expect("parsable pass_service"),
    );
    assert_eq!(
        comp_pass_port_only,
        Destination::from_str(pass_port_only, true).expect("parsable port-only destination")
    );
    assert_eq!(
        comp_pass_socket,
        Destination::from_str(pass_socket, true).expect("parsable socket destination")
    );
    assert_eq!(
        comp_pass_port_and_addrs,
        Destination::from_str(pass_port_and_addrs, true).expect("parsable socket destination")
    );
    assert_eq!(
        comp_pass_service,
        Destination::from_str(pass_service, true).expect("parsable service destination")
    );
    assert!(
        Destination::from_str(fail_two_ports, true).is_err(),
        "should fail to parse: {}",
        fail_two_ports
    );
    assert!(
        Destination::from_str(fail_invalid_ip, true).is_err(),
        "should fail to parse: {}",
        fail_invalid_ip
    );
    assert!(
        Destination::from_str(fail_invalid_port, true).is_err(),
        "should fail to parse: {}",
        fail_invalid_port
    );
}

#[test]
fn parse_possible_destinations() {
    let pass_no_refuse = "test-service".to_string();
    let pass_with_refuse = "[::1],127.0.0.1:4000|test-service".to_string();
    assert!(
        PossibleDestinations::try_from_config(pass_no_refuse.clone(), true).ok().is_some(),
        "this should parse without a refuse destination: {}",
        pass_no_refuse
    );
    assert!(
        PossibleDestinations::try_from_config(pass_with_refuse.clone(), true).ok().is_some(),
        "this should parse with a refuse destination: {}",
        pass_with_refuse
    );
}

#[test]
fn only_test_builds_know_the_service_for_tests() {
    assert_eq!(
        Destination::from_str("test-service", true),
        Ok(Destination::InternalService(InternalService::TestService))
    );
    assert_eq!(Destination::from_str("test-service", false), Err(DestinationError::Port));
    assert!(InternalService::from_str("test-service", false).is_err());
    assert!(PossibleDestinations::try_from_config("80|test-service".to_string(), false).is_err());
    for build in [true, false] {
        assert_eq!(
            Destination::from_str("ssh-tarpit", build),
            Ok(Destination::InternalService(InternalService::SshTarpit))
        );
    }
}

#[test]
fn destination_errors_name_the_part() {
    assert_eq!(Destination::from_str("four20", true).err(), Some(DestinationError::Port));
    assert_eq!(Destination::from_str("", true).err(), Some(DestinationError::Port));
    assert_eq!(Destination::from_str("1:65536", true).err(), Some(DestinationError::Port));
    assert_eq!(Destination::from_str("12222.1521.2161:10", true).err(), Some(DestinationError::Address));
    assert_eq!(Destination::from_str("127.0.0.1:4000:4000", true).err(), Some(DestinationError::Address));
    // the port is looked at first
    assert_eq!(Destination::from_str("nonsense:nonsense", true).err(), Some(DestinationError::Port));
}

#[test]
fn destination_white_space_and_empty_addresses() {
    assert_eq!(Destination::from_str(" 80 ", true).ok(), Some(Destination::PortOnly(80)));
    assert_eq!(Destination::from_str(":80", true).ok(), Some(Destination::PortOnly(80)));
    assert_eq!(Destination::from_str(" , [] , :+80", true).ok(), Some(Destination::PortOnly(80)));
    assert_eq!(
        Destination::from_str(" [10.0.0.1] ,: 80", true).ok(),
        Some(Destination::Socket(SocketAddr::new(IpAddr::V4(0x0a000001), 80)))
    );
    assert_eq!(
        Destination::from_str("[::1]:443", true).ok(),
        Some(Destination::Socket(SocketAddr::new(IpAddr::V6(1), 443)))
    );
    // an address without brackets keeps its colons
    assert_eq!(
        Destination::from_str("fe80::1:443", true).ok(),
        Some(Destination::Socket(SocketAddr::new(
            IpAddr::V6(0xfe800000000000000000000000000001),
            443
        )))
    );
    // a service is named exactly
    assert!(Destination::from_str(" ssh-tarpit", true).is_err());
}

#[test]
fn possible_destinations_of_either_answer() {
    let only = PossibleDestinations::from_str("80", true).unwrap();
    assert_eq!(only.try_get_inner(true), Some(&Destination::PortOnly(80)));
    assert_eq!(only.try_get_inner(false), None);
    let both = PossibleDestinations::from_str("80|ssh-tarpit", true).unwrap();
    assert_eq!(both.get_only_destination(), &Destination::PortOnly(80));
    assert_eq!(
        both.try_get_inner(false),
        Some(&Destination::InternalService(InternalService::SshTarpit))
    );
    assert_eq!(both.clone().try_into_inner(true), Some(Destination::PortOnly(80)));
    assert_eq!(PossibleDestinations::from_str("80|", true).err(), Some(DestinationError::Port));
    assert_eq!(PossibleDestinations::from_str("80|81|82", true).err(), Some(DestinationError::Port));
    assert_eq!(PossibleDestinations::from_str("x:80|81", true).err(), Some(DestinationError::Address));
}

#[test]
fn destinations_are_written() {
    let socket4 = Destination::from_str("127.0.0.1:10", true).unwrap();
    let socket6 = Destination::from_str("[::1]:10", true).unwrap();
    let list = Destination::from_str("127.0.0.1,[::1]:4000", true).unwrap();
    assert_eq!(Destination::PortOnly(8080).to_phrase(), "port 8080");
    assert_eq!(socket4.to_phrase(), "socket 127.0.0.1:10");
    assert_eq!(socket6.to_phrase(), "socket [::1]:10");
    assert_eq!(list.to_phrase(), "port 4000 with addresses: [127.0.0.1, ::1]");
    assert_eq!(
        Destination::InternalService(InternalService::LoadBalancer).to_phrase(),
        "load-balancer"
    );
    assert_eq!(Destination::PortOnly(0).to_parts(), "[port: 0]");
    assert_eq!(socket4.to_parts(), "[socket: 127.0.0.1:10]");
    assert_eq!(list.to_parts(), "[port: 4000, addresses: [127.0.0.1, ::1]]");
    assert_eq!(
        Destination::InternalService(InternalService::GatekeeperAuth).to_parts(),
        "[service: gatekeeper-auth]"
    );
}

#[test]
fn forwarded_connections_keep_their_parts() {
    let settings = ConnectionSettings { timeout: Seconds { secs: 5 } };
    let remote = SocketAddr::new(IpAddr::V4(1), 2);
    let conn = ForwardedConnection::new_tcp_conn(7, remote, settings, Destination::PortOnly(3));
    assert_eq!(conn.destination, Destination::PortOnly(3));
    assert_eq!(conn.remote_socket, remote);
    let (inner, socket, kept) = conn.into_inner();
    assert_eq!(inner.tcp(), Some(7));
    assert_eq!(socket, remote);
    assert_eq!(kept, settings);
    let quic: ConnectionInner<i32> = ConnectionInner::Quic;
    assert_eq!(quic.tcp(), None);
}

#[test]
fn written_sockets_are_destinations() {
    for ip in [IpAddr::V4(0), IpAddr::V4(0xc0a80001), IpAddr::V6(0), IpAddr::V6(0xfe80 << 112)] {
        for port in [0, 80, 65535] {
            let socket = SocketAddr::new(ip, port);
            assert_eq!(
                Destination::from_str(&socket_string(socket), true),
                Ok(Destination::Socket(socket))
            );
        }
    }
}

#[test]
fn written_ports_and_services_are_destinations() {
    for port in [0u16, 9, 10, 4443, 65535] {
        assert_eq!(Destination::from_str(&port.to_string(), true), Ok(Destination::PortOnly(port)));
    }
    for service in [
        InternalService::SshTarpit,
        InternalService::LoadBalancer,
        InternalService::GatekeeperAuth,
    ] {
        assert_eq!(
            Destination::from_str(service.slug_name(), true),
            Ok(Destination::InternalService(service))
        );
    }
}
