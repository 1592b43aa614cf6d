//! The listener that looks for a host name in what a client sends first.

use std::sync::Arc;
use vstd::prelude::*;
use vstd::slice::slice_subrange;
use vstd::utf8::{decode_utf8, valid_utf8};
use crate::addr::{IpAddr, SocketAddr};
use crate::config::settings::{BindSettings, TlsConnectionSettings};
use crate::connection::{Destination, DestinationView, PossibleDestinations};
use crate::services::{InternalService, ServiceForwardTable};
use crate::text::{
    eq_ignore_ascii_case, is_white_space, lemma_first_index_is, lemma_last_index_is, rsplit_once,
    same_ignoring_case, split_at_first, split_at_last, split_once, trim, trimmed, trimmed_end,
    trimmed_start,
};
use crate::text_map::TextMap;
use crate::utils::logging::opt_text;

verus! {

/// What the listener is made from.
pub struct TlsRpHandlerConfig {
    pub connection_settings: TlsConnectionSettings,
    pub destination_provider: TextMap<PossibleDestinations>,
}

/// The listener before it is bound.
pub struct TlsRpHandler<S> {
    pub connection_settings: TlsConnectionSettings,
    pub destination_provider: Arc<TextMap<PossibleDestinations>>,
    pub forward_sender: ServiceForwardTable<S>,
}

/// The listener with its bound sockets.
pub struct BoundTlsRpHandler<L, S> {
    pub listeners: Vec<L>,
    pub connection_settings: TlsConnectionSettings,
    pub destination_provider: Arc<TextMap<PossibleDestinations>>,
    pub forward_sender: ServiceForwardTable<S>,
}

/// A socket did not come back from the task that listened on it.
#[derive(Clone, Copy, Debug, PartialEq, Eq, Structural)]
pub struct ListenerLost {}

/// There is no socket to bind.
#[derive(Clone, Copy, Debug, PartialEq, Eq, Structural)]
pub struct NothingToBind {}

/// Every address with the given port.
pub open spec fn sockets_at(ips: Seq<IpAddr>, port: u16) -> Seq<SocketAddr> {
    ips.map_values(|ip: IpAddr| SocketAddr { ip, port })
}

/// Every address with every port, port by port.
pub open spec fn sockets(ports: Seq<u16>, ips: Seq<IpAddr>) -> Seq<SocketAddr>
    decreases ports.len(),
{
    if ports.len() == 0 {
        Seq::empty()
    } else {
        sockets(ports.drop_last(), ips) + sockets_at(ips, ports.last())
    }
}

/// There are as many sockets as pairs of a port and an address, and each pair has its own.
pub proof fn every_pair_has_a_socket(ports: Seq<u16>, ips: Seq<IpAddr>, p: int, i: int)
    ensures
        sockets(ports, ips).len() == ports.len() * ips.len(),
        0 <= p < ports.len() && 0 <= i < ips.len() ==> {
            &&& 0 <= p * ips.len() + i < ports.len() * ips.len()
            &&& sockets(ports, ips)[p * ips.len() + i] == (SocketAddr {
                ip: ips[i],
                port: ports[p],
            })
        },
    decreases ports.len(),
{
    let n = ips.len() as int;
    let m = ports.len() as int;
    if m > 0 {
        every_pair_has_a_socket(ports.drop_last(), ips, p, i);
        assert((m - 1) * n + n == m * n) by (nonlinear_arith);
        if 0 <= p < m && 0 <= i < n {
            assert(0 <= p * n + i < m * n) by (nonlinear_arith)
                requires
                    0 <= p < m,
                    0 <= i < n,
            ;
            if p < m - 1 {
                assert(p * n + i < (m - 1) * n) by (nonlinear_arith)
                    requires
                        0 <= p < m - 1,
                        0 <= i < n,
                ;
                assert(ports.drop_last()[p] == ports[p]);
            }
        }
    } else {
        assert(m * n == 0) by (nonlinear_arith)
            requires
                m == 0,
        ;
    }
}

impl<S> TlsRpHandler<S> {
    pub fn new(config: TlsRpHandlerConfig, forward_sender: ServiceForwardTable<S>) -> (r: Self)
        ensures
            r.connection_settings == config.connection_settings,
            *r.destination_provider == config.destination_provider,
            r.forward_sender == forward_sender,
    {
        TlsRpHandler {
            connection_settings: config.connection_settings,
            destination_provider: Arc::new(config.destination_provider),
            forward_sender,
        }
    }

    /// The sockets that the listener is to be bound to. There has to be at least one.
    pub fn bind_plan(&self, settings: &BindSettings) -> (r: Result<Vec<SocketAddr>, NothingToBind>)
        ensures
            match r {
                Ok(list) => list.len() > 0 && list@ == sockets(
                    settings.tls_rp_bind_port@,
                    settings.bind_ip_addrs@,
                ),
                Err(_) => sockets(settings.tls_rp_bind_port@, settings.bind_ip_addrs@).len() == 0,
            },
    {
        let ghost ports = settings.tls_rp_bind_port@;
        let ghost ips = settings.bind_ip_addrs@;
        let mut list: Vec<SocketAddr> = Vec::new();
        let mut p: usize = 0;
        assert(ports.take(0) =~= Seq::<u16>::empty());
        while p < settings.tls_rp_bind_port.len()
            invariant
                p <= settings.tls_rp_bind_port.len(),
                ports == settings.tls_rp_bind_port@,
                ips == settings.bind_ip_addrs@,
                list@ == sockets(ports.take(p as int), ips),
            decreases settings.tls_rp_bind_port.len() - p,
        {
            let port = settings.tls_rp_bind_port[p];
            let ghost before = list@;
            let mut i: usize = 0;
            assert(before + sockets_at(ips, port).take(0) =~= before);
            while i < settings.bind_ip_addrs.len()
                invariant
                    i <= settings.bind_ip_addrs.len(),
                    ips == settings.bind_ip_addrs@,
                    list@ == before + sockets_at(ips, port).take(i as int),
                decreases settings.bind_ip_addrs.len() - i,
            {
                list.push(SocketAddr::new(settings.bind_ip_addrs[i], port));
                assert(list@ =~= before + sockets_at(ips, port).take(i + 1));
                i += 1;
            }
            proof {
                assert(sockets_at(ips, port).take(i as int) =~= sockets_at(ips, port));
                assert(ports.take(p + 1).drop_last() =~= ports.take(p as int));
            }
            p += 1;
        }
        assert(ports.take(p as int) =~= ports);
        if list.len() == 0 {
            Err(NothingToBind {  })
        } else {
            Ok(list)
        }
    }

    /// The listener with the sockets that have been bound for it.
    pub open spec fn bound_with<L>(self, listeners: Vec<L>) -> BoundTlsRpHandler<L, S> {
        BoundTlsRpHandler {
            listeners,
            connection_settings: self.connection_settings,
            destination_provider: self.destination_provider,
            forward_sender: self.forward_sender,
        }
    }

    /// Takes the sockets that have been bound for the listener.
    pub fn bound<L>(self, listeners: Vec<L>) -> (r: BoundTlsRpHandler<L, S>)
        ensures
            r == self.bound_with(listeners),
    {
        BoundTlsRpHandler {
            listeners,
            connection_settings: self.connection_settings,
            destination_provider: self.destination_provider,
            forward_sender: self.forward_sender,
        }
    }
}

impl<L, S> BoundTlsRpHandler<L, S> {
    /// The listener without its sockets.
    pub open spec fn unbound(self) -> TlsRpHandler<S> {
        TlsRpHandler {
            connection_settings: self.connection_settings,
            destination_provider: self.destination_provider,
            forward_sender: self.forward_sender,
        }
    }

    /// Takes a socket out, to be listened on.
    pub fn next_listener(&mut self) -> (r: Option<L>)
        ensures
            final(self).unbound() == old(self).unbound(),
            match r {
                Some(listener) => {
                    &&& old(self).listeners@.len() > 0
                    &&& listener == old(self).listeners@.last()
                    &&& final(self).listeners@ == old(self).listeners@.drop_last()
                },
                None => old(self).listeners@.len() == 0 && final(self).listeners@.len() == 0,
            },
    {
        self.listeners.pop()
    }

    /// Takes a socket back that is no longer listened on. That fails where the socket was lost.
    pub fn rejoin(&mut self, listener: Option<L>) -> (r: Result<(), ListenerLost>)
        ensures
            final(self).unbound() == old(self).unbound(),
            match listener {
                Some(l) => r is Ok && final(self).listeners@ == old(self).listeners@.push(l),
                None => r is Err && final(self).listeners@ == old(self).listeners@,
            },
    {
        match listener {
            Some(l) => {
                self.listeners.push(l);
                Ok(())
            },
            None => Err(ListenerLost {  }),
        }
    }

    /// Gives the sockets up.
    pub fn unbind(self) -> (r: TlsRpHandler<S>)
        ensures
            r == self.unbound(),
    {
        TlsRpHandler {
            connection_settings: self.connection_settings,
            destination_provider: self.destination_provider,
            forward_sender: self.forward_sender,
        }
    }
}

/// A listener that is bound, to whatever sockets, and then unbound is what it was.
pub proof fn unbinding_undoes_binding<L, S>(handler: TlsRpHandler<S>, listeners: Vec<L>)
    ensures
        handler.bound_with(listeners).unbound() == handler,
{
}

/// How many bytes to look at for the client hello that a record header announces: the header and
/// what follows it. The record has to be of a TLS version and not too large.
pub open spec fn hello_length(header: Seq<u8>, max_client_hello_size: usize) -> Option<nat> {
    let size = header[3] as nat * 256 + header[4] as nat;
    if header[1] == 0x03 && (header[2] == 0x01 || header[2] == 0x03 || header[2] == 0x04) && size
        <= max_client_hello_size {
        Some(size + 5)
    } else {
        None
    }
}

/// Reads a record header.
pub fn client_hello_length(header: &[u8], settings: &TlsConnectionSettings) -> (r: Option<usize>)
    requires
        header.len() == 5,
    ensures
        match r {
            Some(n) => hello_length(header@, settings.max_client_hello_size) == Some(n as nat),
            None => hello_length(header@, settings.max_client_hello_size) is None,
        },
{
    if header[1] != 0x03 {
        return None;
    }
    if header[2] != 0x01 && header[2] != 0x03 && header[2] != 0x04 {
        return None;
    }
    let size: usize = header[3] as usize * 256 + header[4] as usize;
    if size > settings.max_client_hello_size {
        return None;
    }
    Some(size + 5)
}

/// The server name that a TLS acceptor finds in the first bytes of a connection.
pub uninterp spec fn tls_server_name(input: Seq<u8>) -> Option<Seq<char>>;

/// Hands the first bytes of a connection to a fresh `rustls::server::Acceptor`, all of them, with as
/// many calls of `rustls::server::Acceptor::read_tls` as that takes. Then it gives back what
/// `rustls::server::ClientHello::server_name` finds in what `rustls::server::Acceptor::accept` has
/// read. There is none where one of the calls fails, where the client hello is not complete, or
/// where the client does not name a server.
///
/// What is found depends on the bytes alone; `tls_server_name` is its name.
#[verifier::external_body]
fn accept_server_name(input: Vec<u8>) -> (r: Option<String>)
    ensures
        opt_text(r) == tls_server_name(input@),
{
    let mut acceptor = rustls::server::Acceptor::default();
    let mut rest = input.as_slice();
    while !rest.is_empty() {
        acceptor.read_tls(&mut rest).ok()?;
    }
    let accepted = acceptor.accept().ok()??;
    accepted.client_hello().server_name().map(|name| name.to_owned())
}

/// The position of the first line feed, or the number of bytes where there is none.
pub open spec fn line_end(bytes: Seq<u8>) -> int
    decreases bytes.len(),
{
    if bytes.len() == 0 || bytes[0] == 10 {
        0
    } else {
        1 + line_end(bytes.drop_first())
    }
}

/// The bytes of the first line, without the line feed and the carriage return before it.
pub open spec fn first_line(bytes: Seq<u8>) -> Seq<u8> {
    let raw = bytes.take(line_end(bytes));
    if line_end(bytes) < bytes.len() && raw.len() > 0 && raw.last() == 13 {
        raw.drop_last()
    } else {
        raw
    }
}

/// What follows the first line.
pub open spec fn other_lines(bytes: Seq<u8>) -> Seq<u8> {
    if line_end(bytes) < bytes.len() {
        bytes.skip(line_end(bytes) + 1)
    } else {
        Seq::empty()
    }
}

/// The host that a header line names: what follows the first colon, without white space round it
/// and without a port.
pub open spec fn host_field(line: Seq<char>) -> Option<Seq<char>> {
    match split_at_first(line, ':') {
        Some((field, value)) => if same_ignoring_case(field, "host"@) {
            match split_at_last(trimmed(value), ':') {
                Some((name, _)) => Some(name),
                None => Some(trimmed(value)),
            }
        } else {
            None
        },
        None => None,
    }
}

/// The host that the first such header line names. The empty line at the end of the header ends
/// the search, and so does a line that is not UTF-8.
pub open spec fn http_host(bytes: Seq<u8>) -> Option<Seq<char>>
    decreases bytes.len(),
{
    proof {
        lemma_line_end(bytes);
    }
    if bytes.len() == 0 || first_line(bytes).len() == 0 || !valid_utf8(first_line(bytes)) {
        None
    } else {
        match host_field(decode_utf8(first_line(bytes))) {
            Some(name) => Some(name),
            None => http_host(other_lines(bytes)),
        }
    }
}

/// The lines of a request are read in turn. A line that is text and names a host decides; one that
/// names none leaves it to those that follow. After an empty line nothing counts.
pub proof fn lines_are_read_in_turn(line: Seq<u8>, rest: Seq<u8>)
    requires
        forall|i: int| 0 <= i < line.len() ==> line[i] != 10,
    ensures
        ({
            let text = if line.len() > 0 && line.last() == 13 {
                line.drop_last()
            } else {
                line
            };
            http_host(line.push(10) + rest) == if text.len() == 0 || !valid_utf8(text) {
                None
            } else {
                match host_field(decode_utf8(text)) {
                    Some(name) => Some(name),
                    None => http_host(rest),
                }
            }
        }),
{
    let bytes = line.push(10) + rest;
    lemma_line_end(bytes);
    let e = line_end(bytes);
    if e < line.len() {
        assert(bytes[e] == line[e]);
    }
    if e > line.len() {
        assert(bytes[line.len() as int] == 10);
    }
    assert(bytes.take(e) =~= line);
    assert(bytes.skip(e + 1) =~= rest);
}

/// A host is found in its header line, with white space round it and with a port or without one.
pub proof fn host_lines_name_their_host(name: Seq<char>, port: Seq<char>)
    requires
        name.len() > 0,
        !is_white_space(name[0]),
        !is_white_space(name.last()),
        forall|i: int| 0 <= i < name.len() ==> name[i] != ':',
        port.len() > 0,
        !is_white_space(port.last()),
        forall|i: int| 0 <= i < port.len() ==> port[i] != ':',
    ensures
        host_field("Host: "@ + name) == Some(name),
        host_field("Host: "@ + name + ":"@ + port) == Some(name),
{
    reveal_strlit("Host: ");
    reveal_strlit("host");
    reveal_strlit(":");
    lemma_host_value(name);
    lemma_last_index_is(name, ':', -1);
    let full = name + ":"@ + port;
    assert("Host: "@ + name + ":"@ + port =~= "Host: "@ + full);
    assert(full[0] == name[0]);
    assert(full.last() == port.last());
    lemma_host_value(full);
    let n = name.len() as int;
    assert(full[n] == ':');
    assert forall|j: int| n < j < full.len() implies full[j] != ':' by {
        assert(full[j] == port[j - n - 1]);
    }
    lemma_last_index_is(full, ':', n);
    assert(full.take(n) =~= name);
}

proof fn lemma_host_value(value: Seq<char>)
    requires
        value.len() > 0,
        !is_white_space(value[0]),
        !is_white_space(value.last()),
    ensures
        host_field("Host: "@ + value) == match split_at_last(value, ':') {
            Some((name, _)) => Some(name),
            None => Some(value),
        },
{
    reveal_strlit("Host: ");
    reveal_strlit("host");
    let line = "Host: "@ + value;
    lemma_first_index_is(line, ':', 4);
    let field = line.take(4);
    let rest = line.skip(5);
    assert(field =~= seq!['H', 'o', 's', 't']);
    assert(same_ignoring_case(field, "host"@));
    assert(rest[0] == ' ');
    assert(rest.drop_first() =~= value);
    assert(trimmed_start(value) == value);
    assert(trimmed_start(rest) == value);
    assert(trimmed_end(value) == value);
}

/// Reads bytes as UTF-8 with `std::str::from_utf8`: the text that the bytes encode, or nothing
/// where they do not encode a text.
#[verifier::external_body]
fn text_of(bytes: &[u8]) -> (r: Option<&str>)
    ensures
        match r {
            Some(s) => valid_utf8(bytes@) && s@ == decode_utf8(bytes@),
            None => !valid_utf8(bytes@),
        },
{
    std::str::from_utf8(bytes).ok()
}

/// The first line ends at the first line feed.
pub proof fn lemma_line_end(bytes: Seq<u8>)
    ensures
        0 <= line_end(bytes) <= bytes.len(),
        forall|j: int| 0 <= j < line_end(bytes) ==> bytes[j] != 10,
        line_end(bytes) < bytes.len() ==> bytes[line_end(bytes)] == 10,
    decreases bytes.len(),
{
    if bytes.len() > 0 && bytes[0] != 10 {
        let t = bytes.drop_first();
        lemma_line_end(t);
        assert forall|j: int| 0 <= j < line_end(bytes) implies bytes[j] != 10 by {
            if j > 0 {
                assert(bytes[j] == t[j - 1]);
            }
        }
    }
}

/// Reads a header line.
pub fn host_from_line(line: &str) -> (r: Option<String>)
    ensures
        opt_text(r) == host_field(line@),
{
    match split_once(line, ':') {
        Some((field, value)) => {
            if !eq_ignore_ascii_case(field, "host") {
                return None;
            }
            match rsplit_once(trim(value), ':') {
                Some((name, _)) => Some(name.to_owned()),
                None => Some(trim(value).to_owned()),
            }
        },
        None => None,
    }
}

/// Looks for the host in the head of an HTTP request.
pub fn host_from_http(bytes: &[u8]) -> (r: Option<String>)
    ensures
        opt_text(r) == http_host(bytes@),
{
    let n = bytes.len();
    let mut start: usize = 0;
    assert(bytes@.skip(0) =~= bytes@);
    while start < n
        invariant
            start <= n,
            n == bytes.len(),
            http_host(bytes@) == http_host(bytes@.skip(start as int)),
        decreases n - start,
    {
        let ghost rest = bytes@.skip(start as int);
        let mut end: usize = start;
        while end < n && bytes[end] != 10
            invariant
                start <= end <= n,
                n == bytes.len(),
                forall|j: int| start <= j < end ==> bytes@[j] != 10,
            decreases n - end,
        {
            end += 1;
        }
        proof {
            lemma_line_end(rest);
            let e = line_end(rest);
            if e < end - start {
                assert(rest[e] == bytes@[start + e]);
            }
            if end - start < e {
                assert(rest[end - start] == bytes@[end as int]);
            }
            assert(e == end - start);
        }
        let stop: usize = if end < n && end > start && bytes[end - 1] == 13 {
            end - 1
        } else {
            end
        };
        let line = slice_subrange(bytes, start, stop);
        assert(line@ =~= first_line(rest));
        if stop == start {
            return None;
        }
        match text_of(line) {
            Some(text) => {
                if let Some(host) = host_from_line(text) {
                    return Some(host);
                }
            },
            None => {
                return None;
            },
        }
        proof {
            if end < n {
                assert(other_lines(rest) =~= bytes@.skip(end + 1));
            } else {
                assert(other_lines(rest) =~= bytes@.skip(n as int));
            }
        }
        start = if end < n {
            end + 1
        } else {
            n
        };
    }
    proof {
        lemma_line_end(bytes@.skip(n as int));
    }
    None
}

/// The bytes that are looked at next, without taking them out of the connection.
#[derive(Clone, Copy, Debug, PartialEq, Eq, Structural)]
pub enum Peek {
    /// The header of the first record.
    RecordHeader,
    /// The first record, which is so long with its header.
    ClientHello(usize),
    /// The head of an HTTP request.
    HttpHeader,
}

/// What is done with a connection next.
pub enum HostSearch {
    /// More has to be seen.
    Look(Peek),
    /// The service takes the connection to the destination.
    Forward(InternalService, Destination),
    /// The connection is given up.
    Drop,
}

/// Where a search for the host stands: what is to be looked at, or which destination was found.
#[verifier::ext_equal]
pub enum HostSearchView {
    Look(Peek),
    Forward(InternalService, DestinationView),
    Drop,
}

impl View for HostSearch {
    type V = HostSearchView;

    open spec fn view(&self) -> HostSearchView {
        match *self {
            HostSearch::Look(peek) => HostSearchView::Look(peek),
            HostSearch::Forward(service, destination) => HostSearchView::Forward(
                service,
                destination@,
            ),
            HostSearch::Drop => HostSearchView::Drop,
        }
    }
}

impl Peek {
    /// How many bytes are looked at.
    pub open spec fn length(self) -> nat {
        match self {
            Peek::RecordHeader => 5,
            Peek::ClientHello(n) => n as nat,
            Peek::HttpHeader => 512,
        }
    }

    /// The size of the buffer that is filled.
    pub fn size(self) -> (n: usize)
        ensures
            n == self.length(),
    {
        match self {
            Peek::RecordHeader => 5,
            Peek::ClientHello(n) => n,
            Peek::HttpHeader => 512,
        }
    }
}

/// The destination for a host. A host that is not listed, or that was not found, gets none.
pub open spec fn host_route(
    provider: Map<Seq<char>, PossibleDestinations>,
    name: Option<Seq<char>>,
) -> HostSearchView {
    match name {
        Some(host) => if provider.contains_key(host) {
            HostSearchView::Forward(
                InternalService::LoadBalancer,
                provider[host].destination@,
            )
        } else {
            HostSearchView::Drop
        },
        None => HostSearchView::Drop,
    }
}

/// What follows from the bytes that were seen.
pub open spec fn search_step(
    peek: Peek,
    peeked: Option<Seq<u8>>,
    max_client_hello_size: usize,
    provider: Map<Seq<char>, PossibleDestinations>,
) -> HostSearchView {
    match peeked {
        None => HostSearchView::Drop,
        Some(bytes) => match peek {
            Peek::RecordHeader => if bytes[0] != 0x16 {
                HostSearchView::Look(Peek::HttpHeader)
            } else {
                match hello_length(bytes, max_client_hello_size) {
                    Some(n) => HostSearchView::Look(Peek::ClientHello(n as usize)),
                    None => HostSearchView::Drop,
                }
            },
            Peek::ClientHello(_) => host_route(provider, tls_server_name(bytes)),
            Peek::HttpHeader => host_route(provider, http_host(bytes)),
        },
    }
}

/// Looks a host up.
pub fn route_host(
    destination_provider: &TextMap<PossibleDestinations>,
    name: Option<String>,
) -> (r: HostSearch)
    ensures
        r@ == host_route(destination_provider@, opt_text(name)),
{
    match name {
        Some(host) => match destination_provider.get(host.as_str()) {
            Some(destinations) => HostSearch::Forward(
                InternalService::LoadBalancer,
                destinations.get_only_destination().clone(),
            ),
            None => HostSearch::Drop,
        },
        None => HostSearch::Drop,
    }
}

/// What to look at first.
pub fn first_look() -> (r: Peek)
    ensures
        r == Peek::RecordHeader,
{
    Peek::RecordHeader
}

/// Goes on after a look. `peeked` is the buffer, which is of the size that was asked for; there is
/// none where looking failed or took too long.
pub fn after_look(
    peek: Peek,
    peeked: Option<Vec<u8>>,
    settings: &TlsConnectionSettings,
    destination_provider: &TextMap<PossibleDestinations>,
) -> (r: HostSearch)
    requires
        peeked matches Some(bytes) ==> bytes.len() == peek.length(),
    ensures
        r@ == search_step(
            peek,
            match peeked {
                Some(bytes) => Some(bytes@),
                None => None,
            },
            settings.max_client_hello_size,
            destination_provider@,
        ),
{
    match peeked {
        None => HostSearch::Drop,
        Some(bytes) => match peek {
            Peek::RecordHeader => {
                if bytes[0] != 0x16 {
                    return HostSearch::Look(Peek::HttpHeader);
                }
                match client_hello_length(bytes.as_slice(), settings) {
                    Some(n) => HostSearch::Look(Peek::ClientHello(n)),
                    None => HostSearch::Drop,
                }
            },
            Peek::ClientHello(_) => route_host(destination_provider, accept_server_name(bytes)),
            Peek::HttpHeader => {
                route_host(destination_provider, host_from_http(bytes.as_slice()))
            },
        },
    }
}

/// A connection is looked at no more than twice, and is forwarded only to the destination that is
/// listed for a host.
pub proof fn search_ends(
    first: Seq<u8>,
    second: Option<Seq<u8>>,
    max_client_hello_size: usize,
    provider: Map<Seq<char>, PossibleDestinations>,
)
    ensures
        match search_step(Peek::RecordHeader, Some(first), max_client_hello_size, provider) {
            HostSearchView::Look(peek) => {
                &&& peek !is RecordHeader
                &&& match search_step(peek, second, max_client_hello_size, provider) {
                    HostSearchView::Look(_) => false,
                    HostSearchView::Forward(service, destination) => {
                        &&& service == InternalService::LoadBalancer
                        &&& exists|host: Seq<char>| #[trigger]
                            provider.contains_key(host) && provider[host].destination@
                                == destination
                    },
                    HostSearchView::Drop => true,
                }
            },
            HostSearchView::Forward(_, _) => false,
            HostSearchView::Drop => true,
        },
{
}

} // verus!
