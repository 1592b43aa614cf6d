use std::sync::Arc;

use rusty_valve::addr::{IpAddr, SocketAddr};
use rusty_valve::config::settings::{
    BindSettings, ConnectionSettings, Seconds, TlsConnectionSettings,
};
use rusty_valve::connection::{Destination, PossibleDestinations};
use rusty_valve::listeners::tcp_rp::{
    incoming_destination, SimpleTcpHandler, SimpleTcpHandlerConfig,
};
use rusty_valve::listeners::tls_http_rp::{
    after_look, client_hello_length, first_look, host_from_http, host_from_line, route_host,
    HostSearch, ListenerLost, NothingToBind, Peek, TlsRpHandler, TlsRpHandlerConfig,
};
use rusty_valve::services::{InternalService, ServiceForwardTable, ServiceForwardTableBuilder};
use rusty_valve::text_map::TextMap;

fn settings() -> ConnectionSettings {
    ConnectionSettings { timeout: Seconds { secs: 5 } }
}

fn tls_settings() -> TlsConnectionSettings {
    TlsConnectionSettings { connection_settings: settings(), max_client_hello_size: 16358 }
}

fn table(with_gatekeeper: bool) -> ServiceForwardTable<u8> {
    let mut builder = ServiceForwardTableBuilder::new();
    builder.add(InternalService::LoadBalancer, 1).unwrap();
    if with_gatekeeper {
        builder.add(InternalService::GatekeeperAuth, 2).unwrap();
    }
    builder.build()
}

fn bind_settings(ips: Vec<IpAddr>, ports: Vec<u16>) -> BindSettings {
    BindSettings { bind_ip_addrs: Arc::new(ips), tls_rp_bind_port: Arc::new(ports) }
}

fn hosts() -> TextMap<PossibleDestinations> {
    let mut map = TextMap::new();
    map.insert(
        "example.com".to_string(),
        PossibleDestinations::from_str("8443|ssh-tarpit", false).unwrap(),
    );
    map.insert("other.example".to_string(), PossibleDestinations::from_str("9000", false).unwrap());
    map
}

/// The first record of a client that asks for the given host, with so many bytes of padding.
fn padded_hello(host: Option<&str>, padding: u16) -> Vec<u8> {
    let mut extensions: Vec<u8> = Vec::new();
    if let Some(name) = host {
        let n = name.len() as u8;
        extensions.extend([0, 0, 0, n + 5, 0, n + 3, 0, 0, n]);
        extensions.extend(name.as_bytes());
    }
    // supported versions: TLS 1.3
    extensions.extend([0, 43, 0, 3, 2, 3, 4]);
    // supported groups: x25519
    extensions.extend([0, 10, 0, 4, 0, 2, 0, 29]);
    // signature algorithms: ecdsa_secp256r1_sha256
    extensions.extend([0, 13, 0, 4, 0, 2, 4, 3]);
    if padding > 0 {
        extensions.extend([0, 21]);
        extensions.extend(padding.to_be_bytes());
        extensions.extend(vec![0; padding as usize]);
    }
    let mut body: Vec<u8> = vec![3, 3];
    body.extend([7; 32]);
    // no session, one cipher suite, no compression
    body.extend([0, 0, 2, 0x13, 1, 1, 0]);
    body.extend((extensions.len() as u16).to_be_bytes());
    body.extend(extensions);
    let mut record: Vec<u8> = vec![0x16, 3, 1];
    record.extend((body.len() as u16 + 4).to_be_bytes());
    record.extend([1, 0]);
    record.extend((body.len() as u16).to_be_bytes());
    record.extend(body);
    record
}

fn client_hello(host: Option<&str>) -> Vec<u8> {
    padded_hello(host, 0)
}

fn padded(head: &str) -> Vec<u8> {
    let mut bytes = head.as_bytes().to_vec();
    bytes.resize(512, 0);
    bytes
}

fn forwarded_port(step: HostSearch) -> Option<u16> {
    match step {
        HostSearch::Forward(InternalService::LoadBalancer, Destination::PortOnly(port)) => {
            Some(port)
        }
        _ => None,
    }
}

#[test]
fn record_headers() {
    let ok = |header: [u8; 5]| client_hello_length(&header, &tls_settings());
    assert_eq!(ok([0x16, 3, 1, 0, 100]), Some(105));
    assert_eq!(ok([0x16, 3, 3, 1, 2]), Some(263));
    assert_eq!(ok([0x16, 3, 4, 0, 0]), Some(5));
    assert_eq!(ok([0x16, 3, 2, 0, 100]), None);
    assert_eq!(ok([0x16, 3, 0, 0, 100]), None);
    assert_eq!(ok([0x16, 2, 1, 0, 100]), None);
    // 16358 is the largest size, and 16359 is too large
    assert_eq!(ok([0x16, 3, 1, 0x3f, 0xe6]), Some(16363));
    assert_eq!(ok([0x16, 3, 1, 0x3f, 0xe7]), None);
}

#[test]
fn server_name_is_found_and_routed() {
    let hello = client_hello(Some("Example.COM"));
    let step = after_look(
        first_look(),
        Some(hello[..5].to_vec()),
        &tls_settings(),
        &hosts(),
    );
    let HostSearch::Look(peek) = step else { panic!("the record should be looked at") };
    assert_eq!(peek, Peek::ClientHello(hello.len()));
    assert_eq!(peek.size(), hello.len());
    let step = after_look(peek, Some(hello), &tls_settings(), &hosts());
    assert_eq!(forwarded_port(step), Some(8443));
}

#[test]
fn long_client_hellos_are_read_to_the_end() {
    for padding in [4000, 4096, 9000, 16200] {
        let hello = padded_hello(Some("example.com"), padding);
        let header = hello[..5].to_vec();
        let step = after_look(first_look(), Some(header), &tls_settings(), &hosts());
        let HostSearch::Look(peek) = step else { panic!("the record should be looked at") };
        assert_eq!(peek, Peek::ClientHello(hello.len()));
        let step = after_look(peek, Some(hello), &tls_settings(), &hosts());
        assert_eq!(forwarded_port(step), Some(8443), "{}", padding);
    }
    // one byte is missing at the end
    let mut cut = padded_hello(Some("example.com"), 9000);
    cut.pop();
    let step = after_look(Peek::ClientHello(cut.len()), Some(cut), &tls_settings(), &hosts());
    assert!(matches!(step, HostSearch::Drop));
}

#[test]
fn client_hellos_that_lead_nowhere() {
    let look = |bytes: Vec<u8>| {
        after_look(Peek::ClientHello(bytes.len()), Some(bytes), &tls_settings(), &hosts())
    };
    assert_eq!(forwarded_port(look(client_hello(Some("other.example")))), Some(9000));
    // a host that is not listed
    assert!(matches!(look(client_hello(Some("third.example"))), HostSearch::Drop));
    // no host
    assert!(matches!(look(client_hello(None)), HostSearch::Drop));
    // not complete: the buffer ends in zeros
    let mut cut = client_hello(Some("example.com"));
    let n = cut.len();
    cut[n - 20..].fill(0);
    assert!(matches!(look(cut), HostSearch::Drop));
    // not a client hello
    let mut other = client_hello(Some("example.com"));
    other[5] = 2;
    assert!(matches!(look(other), HostSearch::Drop));
}

#[test]
fn looking_fails() {
    for peek in [Peek::RecordHeader, Peek::ClientHello(9), Peek::HttpHeader] {
        assert!(matches!(after_look(peek, None, &tls_settings(), &hosts()), HostSearch::Drop));
    }
    let bad = after_look(
        Peek::RecordHeader,
        Some(vec![0x16, 2, 1, 0, 1]),
        &tls_settings(),
        &hosts(),
    );
    assert!(matches!(bad, HostSearch::Drop));
}

#[test]
fn http_requests_are_routed() {
    assert_eq!(first_look().size(), 5);
    let step =
        after_look(first_look(), Some(b"GET /".to_vec()), &tls_settings(), &hosts());
    assert!(matches!(step, HostSearch::Look(Peek::HttpHeader)));
    assert_eq!(Peek::HttpHeader.size(), 512);
    let route = |head: &str| {
        forwarded_port(after_look(Peek::HttpHeader, Some(padded(head)), &tls_settings(), &hosts()))
    };
    assert_eq!(route("GET / HTTP/1.1\r\nHost: example.com:80\r\n\r\n"), Some(8443));
    assert_eq!(route("GET / HTTP/1.1\r\nAccept: *\r\nhOST:other.example\r\n\r\n"), Some(9000));
    assert_eq!(route("GET / HTTP/1.1\r\nHost: example.com\r\n\r\n"), Some(8443));
    // a line after the header does not count
    assert_eq!(route("POST / HTTP/1.0\r\nA: b\r\n\r\nHost: example.com:80\r\n"), None);
    assert_eq!(route("GET / HTTP/1.1\r\n\r\n"), None);
}

#[test]
fn hosts_in_http_heads() {
    let host = |head: &str| host_from_http(head.as_bytes());
    assert_eq!(host("GET / HTTP/1.1\nHost: a:80\n"), Some("a".to_string()));
    assert_eq!(host("Host:a"), Some("a".to_string()));
    assert_eq!(host("Host: a\r\n"), Some("a".to_string()));
    assert_eq!(host("Host: [::1]:80\r\n"), Some("[::1]".to_string()));
    // the first one counts
    assert_eq!(host("host:a:1\r\nhost:b:1\r\n"), Some("a".to_string()));
    // the field is not trimmed
    assert_eq!(host(" Host:a\r\n"), None);
    // white space round the name does not count, a carriage return included
    assert_eq!(host("Host: \ta \r"), Some("a".to_string()));
    // the header ends at the empty line
    assert_eq!(host("GET /\r\n\r\nHost:a\r\n"), None);
    assert_eq!(host("GET /\n\nHost:a\n"), None);
    assert_eq!(host("\r\nHost:a\r\n"), None);
    assert_eq!(host(""), None);
}

#[test]
fn a_line_that_is_not_text_ends_the_search() {
    assert_eq!(host_from_http(b"A: \xff\nHost:a\n"), None);
    assert_eq!(host_from_http(b"Host:a\nA: \xff\n"), Some("a".to_string()));
    assert_eq!(host_from_http("Host:\u{e4}\n".as_bytes()), Some("\u{e4}".to_string()));
    assert_eq!(host_from_http(b"\xc3\nHost:a\n"), None);
}

#[test]
fn host_lines() {
    assert_eq!(host_from_line("HOST: x:1:2"), Some("x:1".to_string()));
    assert_eq!(host_from_line("Hosts: x"), None);
    assert_eq!(host_from_line("host"), None);
    assert_eq!(host_from_line("host:"), Some("".to_string()));
}

#[test]
fn hosts_are_looked_up_exactly() {
    assert_eq!(forwarded_port(route_host(&hosts(), Some("example.com".to_string()))), Some(8443));
    assert!(matches!(route_host(&hosts(), Some("Example.com".to_string())), HostSearch::Drop));
    assert!(matches!(route_host(&hosts(), None), HostSearch::Drop));
}

#[test]
fn tls_sockets_port_by_port() {
    let config =
        TlsRpHandlerConfig { connection_settings: tls_settings(), destination_provider: hosts() };
    let handler = TlsRpHandler::new(config, table(false));
    let a = IpAddr::V4(1);
    let b = IpAddr::V6(2);
    assert_eq!(
        handler.bind_plan(&bind_settings(vec![a, b], vec![80, 443])),
        Ok(vec![
            SocketAddr::new(a, 80),
            SocketAddr::new(b, 80),
            SocketAddr::new(a, 443),
            SocketAddr::new(b, 443),
        ])
    );
    assert_eq!(handler.bind_plan(&bind_settings(vec![], vec![80])), Err(NothingToBind {}));
    assert_eq!(handler.bind_plan(&bind_settings(vec![a], vec![])), Err(NothingToBind {}));
}

#[test]
fn tls_listener_is_bound_and_unbound() {
    let config =
        TlsRpHandlerConfig { connection_settings: tls_settings(), destination_provider: hosts() };
    let mut bound = TlsRpHandler::new(config, table(true)).bound(vec!["x", "y"]);
    assert_eq!(bound.next_listener(), Some("y"));
    assert_eq!(bound.next_listener(), Some("x"));
    assert_eq!(bound.next_listener(), None);
    assert_eq!(bound.rejoin(Some("x")), Ok(()));
    assert_eq!(bound.rejoin(None), Err(ListenerLost {}));
    assert_eq!(bound.listeners, vec!["x"]);
    let handler = bound.unbind();
    assert_eq!(handler.connection_settings, tls_settings());
    assert!(handler.destination_provider.get("example.com").is_some());
    assert!(handler.forward_sender.has_service(&InternalService::GatekeeperAuth));
}

#[test]
fn tcp_sockets_use_the_first_address() {
    let entry = |port: u16| (port, PossibleDestinations::without_else(Destination::PortOnly(port)));
    let handler = |ports: Vec<u16>| {
        let config = SimpleTcpHandlerConfig {
            connection_settings: settings(),
            destination_provider: ports.into_iter().map(entry).collect(),
        };
        SimpleTcpHandler::new(config, table(false))
    };
    let a = IpAddr::V4(1);
    let plan = handler(vec![1, 2, 3]).bind_plan(&bind_settings(vec![a, IpAddr::V4(2)], vec![]));
    let planned: Vec<SocketAddr> = plan.targets.iter().map(|t| t.0).collect();
    assert_eq!(
        planned,
        vec![SocketAddr::new(a, 3), SocketAddr::new(a, 2), SocketAddr::new(a, 1)]
    );
    assert!(handler(vec![1]).bind_plan(&bind_settings(vec![], vec![])).targets.is_empty());

    // bound and unbound twice, the ports are in order again
    let bind = |handler: SimpleTcpHandler<u8>| {
        let mut plan = handler.bind_plan(&bind_settings(vec![a], vec![]));
        let listeners = plan.targets.drain(..).map(|(_, entry)| ("socket", entry)).collect();
        plan.bound(listeners).unbind()
    };
    let ports = |handler: &SimpleTcpHandler<u8>| -> Vec<u16> {
        handler.destination_provider.iter().map(|e| e.0).collect()
    };
    let once = bind(handler(vec![1, 2, 3]));
    assert_eq!(ports(&once), vec![3, 2, 1]);
    assert_eq!(ports(&bind(once)), vec![1, 2, 3]);
}

#[test]
fn tcp_listeners_that_are_lost_are_done_without() {
    let entry = |port: u16| (port, PossibleDestinations::without_else(Destination::PortOnly(port)));
    let config = SimpleTcpHandlerConfig {
        connection_settings: settings(),
        destination_provider: vec![entry(1), entry(2)],
    };
    let mut plan = SimpleTcpHandler::new(config, table(false))
        .bind_plan(&bind_settings(vec![IpAddr::V4(1)], vec![]));
    let listeners = plan.targets.drain(..).map(|(_, entry)| ('s', entry)).collect();
    let mut bound = plan.bound(listeners);
    let last = bound.next_listener();
    assert_eq!(last, Some(('s', entry(1))));
    assert!(bound.next_listener().is_some());
    assert_eq!(bound.next_listener(), None);
    bound.rejoin(None);
    bound.rejoin(last);
    assert_eq!(bound.listeners, vec![('s', entry(1))]);
}

#[test]
fn gatekeeper_decides_where_there_is_one() {
    let only = PossibleDestinations::from_str("80", false).unwrap();
    let both = PossibleDestinations::from_str("80|81", false).unwrap();
    let to = |port: u16| Some((InternalService::LoadBalancer, Destination::PortOnly(port)));
    for approved in [true, false] {
        assert_eq!(incoming_destination(&table(false), &both, approved), to(80));
    }
    assert_eq!(incoming_destination(&table(true), &both, true), to(80));
    assert_eq!(incoming_destination(&table(true), &both, false), to(81));
    assert_eq!(incoming_destination(&table(true), &only, true), to(80));
    assert_eq!(incoming_destination(&table(true), &only, false), None);
}
