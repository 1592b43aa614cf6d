//! What the listeners bind to, and how they find out where a connection goes.

use vstd::prelude::*;
use vstd::utf8::{decode_utf8, valid_utf8};
use crate::addr::{IpAddr, SocketAddr};
use crate::config::settings::{BindSettings, TlsConnectionSettings};
use crate::connection::{Destination, PossibleDestinations};
use crate::laws::text::{
    bare, blank, case_of_ascii_letters, lacks, parted_at_the_first, parted_at_the_last,
    trimming_takes_white_space,
};
use crate::listeners::tcp_rp::{
    incoming_destination, planned_targets, BoundSimpleTcpHandler, SimpleTcpHandler,
    SimpleTcpHandlerConfig, TcpBindPlan,
};
use crate::listeners::tls_http_rp::{
    after_look, client_hello_length, every_pair_has_a_socket, first_look, hello_length, host_field,
    host_from_http, host_from_line, http_host, lemma_line_end, lines_are_read_in_turn, route_host,
    tls_server_name, BoundTlsRpHandler, HostSearch, ListenerLost, NothingToBind, Peek, TlsRpHandler,
    TlsRpHandlerConfig,
};
use crate::services::{InternalService, ServiceForwardTable};
use crate::text::same_ignoring_case;
use crate::text_map::TextMap;

verus! {

/// A record header with version 3.1, 3.3 or 3.4 announces a client hello of as many bytes as its
/// last two bytes say, the high one first. Up to the largest size it is looked at together with the
/// five bytes of the header; above that, or with another version, it is not looked at.
pub proof fn record_headers_announce_a_size(
    header: &[u8],
    settings: &TlsConnectionSettings,
    size: nat,
    r: Option<usize>,
)
    requires
        header@.len() == 5,
        size == 256 * header@[3] + header@[4],
        call_ensures(client_hello_length, (header, settings), r),
    ensures
        header@[1] == 3 && (header@[2] == 1 || header@[2] == 3 || header@[2] == 4) && size
            <= settings.max_client_hello_size ==> r == Some((size + 5) as usize),
        header@[1] == 3 && (header@[2] == 1 || header@[2] == 3 || header@[2] == 4) && size
            > settings.max_client_hello_size ==> r is None,
        header@[1] != 3 || (header@[2] != 1 && header@[2] != 3 && header@[2] != 4) ==> r is None,
{
}

/// A header that is made to announce a size, of whatever type the record is, announces it.
pub proof fn announced_sizes_are_read_back(kind: u8, major: u8, minor: u8, size: u16, max: usize)
    ensures
        ({
            let header = seq![kind, major, minor, (size / 256) as u8, (size % 256) as u8];
            if major == 3 && (minor == 1 || minor == 3 || minor == 4) && size <= max {
                hello_length(header, max) == Some((size + 5) as nat)
            } else {
                hello_length(header, max) is None
            }
        }),
{
}

/// The field is the word "host", each letter small or capital.
pub open spec fn is_host(field: Seq<char>) -> bool {
    &&& field.len() == 4
    &&& field[0] == 'h' || field[0] == 'H'
    &&& field[1] == 'o' || field[1] == 'O'
    &&& field[2] == 's' || field[2] == 'S'
    &&& field[3] == 't' || field[3] == 'T'
}

proof fn lemma_is_host(field: Seq<char>)
    ensures
        same_ignoring_case(field, "host"@) <==> is_host(field),
{
    reveal_strlit("host");
    case_of_ascii_letters(field, "host"@);
    let host = "host"@;
    assert(host.len() == 4 && host[0] == 'h' && host[1] == 'o' && host[2] == 's' && host[3] == 't');
    if same_ignoring_case(field, host) {
        assert(field[0] == host[0] || crate::laws::text::other_case(field[0], host[0]));
        assert(field[1] == host[1] || crate::laws::text::other_case(field[1], host[1]));
        assert(field[2] == host[2] || crate::laws::text::other_case(field[2], host[2]));
        assert(field[3] == host[3] || crate::laws::text::other_case(field[3], host[3]));
    }
}

/// A line names a host where the word before its first colon is "host", in capitals or not. No
/// other field names one, whatever its value is, and neither does a line without a colon.
pub proof fn only_host_fields_name_a_host(field: Seq<char>, value: Seq<char>)
    requires
        lacks(field, ':'),
    ensures
        host_field(field) is None,
        host_field(field + ":"@ + value) is Some <==> is_host(field),
{
    reveal_strlit(":");
    assert(":"@ =~= seq![':']);
    parted_at_the_first(field, ':', value);
    lemma_is_host(field);
}

/// The host is the value without the white space round it, up to the last colon in it.
pub proof fn hosts_are_taken_from_the_value(
    field: Seq<char>,
    before: Seq<char>,
    name: Seq<char>,
    port: Seq<char>,
    after: Seq<char>,
)
    requires
        is_host(field),
        blank(before),
        blank(after),
        lacks(port, ':'),
    ensures
        bare(port) ==> host_field(field + ":"@ + (before + port + after)) == Some(port),
        bare(name + ":"@ + port) ==> host_field(
            field + ":"@ + (before + (name + ":"@ + port) + after),
        ) == Some(name),
{
    reveal_strlit(":");
    assert(":"@ =~= seq![':']);
    lemma_is_host(field);
    if bare(port) {
        parted_at_the_first(field, ':', before + port + after);
        trimming_takes_white_space(before, port, after);
        parted_at_the_last(port, ':', port);
    }
    let full = name + ":"@ + port;
    if bare(full) {
        parted_at_the_first(field, ':', before + full + after);
        trimming_takes_white_space(before, full, after);
        parted_at_the_last(name, ':', port);
    }
}

/// What is found in a line, and in the head of a request, is what stands there.
pub proof fn hosts_are_found(
    line: &str,
    in_line: Option<String>,
    bytes: &[u8],
    in_head: Option<String>,
)
    requires
        call_ensures(host_from_line, (line,), in_line),
        call_ensures(host_from_http, (bytes,), in_head),
    ensures
        match in_line {
            Some(name) => host_field(line@) == Some(name@),
            None => host_field(line@) is None,
        },
        match in_head {
            Some(name) => http_host(bytes@) == Some(name@),
            None => http_host(bytes@) is None,
        },
{
}

/// A request may end without a line feed. Its last line counts as it is, with a carriage return at
/// its end, and nothing follows it. An empty request names no host.
pub proof fn the_last_line_counts(line: Seq<u8>)
    requires
        forall|i: int| 0 <= i < line.len() ==> line[i] != 10,
    ensures
        http_host(line) == if line.len() > 0 && valid_utf8(line) {
            host_field(decode_utf8(line))
        } else {
            None
        },
{
    lemma_line_end(line);
    assert(line.take(line.len() as int) =~= line);
    assert(http_host(Seq::empty()) is None);
}

/// A line that names no host can be left out, and what follows the empty line does not count.
pub proof fn the_header_is_searched(line: Seq<u8>, rest: Seq<u8>)
    requires
        line.len() > 0,
        forall|i: int| 0 <= i < line.len() ==> line[i] != 10 && line[i] != 13,
        valid_utf8(line),
    ensures
        host_field(decode_utf8(line)) is None ==> {
            &&& http_host(line + seq![13u8, 10u8] + rest) == http_host(rest)
            &&& http_host(line + seq![10u8] + rest) == http_host(rest)
        },
        host_field(decode_utf8(line)) is Some ==> {
            &&& http_host(line + seq![13u8, 10u8] + rest) == host_field(decode_utf8(line))
            &&& http_host(line + seq![10u8] + rest) == host_field(decode_utf8(line))
        },
        http_host(seq![13u8, 10u8] + rest) is None,
        http_host(seq![10u8] + rest) is None,
{
    lines_are_read_in_turn(line, rest);
    assert(line + seq![10u8] + rest =~= line.push(10) + rest);
    lines_are_read_in_turn(line.push(13), rest);
    assert(line + seq![13u8, 10u8] + rest =~= line.push(13).push(10) + rest);
    assert(line.push(13).drop_last() =~= line);
    let none = Seq::<u8>::empty();
    lines_are_read_in_turn(none, rest);
    assert(seq![10u8] + rest =~= none.push(10) + rest);
    lines_are_read_in_turn(none.push(13), rest);
    assert(seq![13u8, 10u8] + rest =~= none.push(13).push(10) + rest);
    assert(none.push(13).drop_last() =~= none);
}

/// A host that is listed is forwarded by the load balancer to the first destination that is listed
/// for it. A host that is not listed, or none, is given up.
pub proof fn hosts_go_where_they_are_listed(
    provider: &TextMap<PossibleDestinations>,
    name: Option<String>,
    r: HostSearch,
)
    requires
        call_ensures(route_host, (provider, name), r),
    ensures
        match name {
            Some(host) => if provider@.contains_key(host@) {
                r matches HostSearch::Forward(service, destination) && service
                    == InternalService::LoadBalancer && destination@
                    == provider@[host@].destination@
            } else {
                r is Drop
            },
            None => r is Drop,
        },
{
}

/// A connection is first looked at for a record header.
pub proof fn looks_have_their_sizes(first: Peek, peek: Peek, size: usize)
    requires
        call_ensures(first_look, (), first),
        call_ensures(Peek::size, (peek,), size),
    ensures
        first is RecordHeader,
        peek is RecordHeader ==> size == 5,
        peek is HttpHeader ==> size == 512,
        peek matches Peek::ClientHello(n) ==> size == n,
{
}

/// A connection that cannot be looked at is given up.
pub proof fn a_failed_look_ends_the_search(
    peek: Peek,
    settings: &TlsConnectionSettings,
    provider: &TextMap<PossibleDestinations>,
    r: HostSearch,
)
    requires
        call_ensures(after_look, (peek, None::<Vec<u8>>, settings, provider), r),
    ensures
        r is Drop,
{
}

/// After the record header comes the client hello that it announces, where the connection starts
/// with a handshake record, and the head of a request where it does not.
pub proof fn the_first_byte_tells_the_protocol(
    header: Vec<u8>,
    settings: &TlsConnectionSettings,
    provider: &TextMap<PossibleDestinations>,
    r: HostSearch,
)
    requires
        header@.len() == 5,
        call_ensures(after_look, (Peek::RecordHeader, Some(header), settings, provider), r),
    ensures
        header@[0] != 22 ==> r == HostSearch::Look(Peek::HttpHeader),
        header@[0] == 22 ==> {
            let size = 256 * header@[3] + header@[4];
            if header@[1] == 3 && (header@[2] == 1 || header@[2] == 3 || header@[2] == 4) && size
                <= settings.max_client_hello_size {
                r matches HostSearch::Look(Peek::ClientHello(n)) && n == size + 5
            } else {
                r is Drop
            }
        },
{
}

/// What was seen of a client hello is searched for the name of a server, what was seen of a request
/// for its host. The connection goes where the name is listed, and nowhere else.
pub proof fn the_name_decides(
    n: usize,
    bytes: Vec<u8>,
    settings: &TlsConnectionSettings,
    provider: &TextMap<PossibleDestinations>,
    over_tls: HostSearch,
    over_http: HostSearch,
)
    requires
        call_ensures(after_look, (Peek::ClientHello(n), Some(bytes), settings, provider), over_tls),
        call_ensures(after_look, (Peek::HttpHeader, Some(bytes), settings, provider), over_http),
    ensures
        match tls_server_name(bytes@) {
            Some(host) => if provider@.contains_key(host) {
                over_tls matches HostSearch::Forward(service, destination) && service
                    == InternalService::LoadBalancer && destination@ == provider@[host].destination@
            } else {
                over_tls is Drop
            },
            None => over_tls is Drop,
        },
        match http_host(bytes@) {
            Some(host) => if provider@.contains_key(host) {
                over_http matches HostSearch::Forward(service, destination) && service
                    == InternalService::LoadBalancer && destination@ == provider@[host].destination@
            } else {
                over_http is Drop
            },
            None => over_http is Drop,
        },
{
}

/// The listener for host names is bound to every address at every port, each pair once, port by
/// port. That fails only where there is no address or no port.
pub proof fn every_address_is_bound_at_every_port<S>(
    handler: &TlsRpHandler<S>,
    settings: &BindSettings,
    p: int,
    i: int,
    r: Result<Vec<SocketAddr>, NothingToBind>,
)
    requires
        0 <= p < settings.tls_rp_bind_port@.len(),
        0 <= i < settings.bind_ip_addrs@.len(),
        call_ensures(TlsRpHandler::<S>::bind_plan, (handler, settings), r),
    ensures
        r matches Ok(list) && list@.len() == settings.tls_rp_bind_port@.len()
            * settings.bind_ip_addrs@.len() && {
            let socket = list@[p * settings.bind_ip_addrs@.len() + i];
            socket.ip == settings.bind_ip_addrs@[i] && socket.port == settings.tls_rp_bind_port@[p]
        },
{
    every_pair_has_a_socket(settings.tls_rp_bind_port@, settings.bind_ip_addrs@, p, i);
}

/// Without an address or without a port there is nothing to bind.
pub proof fn nothing_is_bound_without_addresses_or_ports<S>(
    handler: &TlsRpHandler<S>,
    settings: &BindSettings,
    r: Result<Vec<SocketAddr>, NothingToBind>,
)
    requires
        settings.tls_rp_bind_port@.len() == 0 || settings.bind_ip_addrs@.len() == 0,
        call_ensures(TlsRpHandler::<S>::bind_plan, (handler, settings), r),
    ensures
        r is Err,
{
    let m = settings.tls_rp_bind_port@.len();
    let n = settings.bind_ip_addrs@.len();
    every_pair_has_a_socket(settings.tls_rp_bind_port@, settings.bind_ip_addrs@, 0, 0);
    assert(m * n == 0) by (nonlinear_arith)
        requires
            m == 0 || n == 0,
    ;
}

/// The listener for host names keeps its settings, its hosts and its services when it is made,
/// bound and unbound.
pub proof fn the_host_listener_keeps_its_parts<L, S>(
    config: TlsRpHandlerConfig,
    services: ServiceForwardTable<S>,
    handler: TlsRpHandler<S>,
    listeners: Vec<L>,
    bound: BoundTlsRpHandler<L, S>,
    unbound: TlsRpHandler<S>,
)
    requires
        call_ensures(TlsRpHandler::<S>::new, (config, services), handler),
        call_ensures(TlsRpHandler::<S>::bound::<L>, (handler, listeners), bound),
        call_ensures(BoundTlsRpHandler::<L, S>::unbind, (bound,), unbound),
    ensures
        handler.connection_settings == config.connection_settings,
        *handler.destination_provider == config.destination_provider,
        handler.forward_sender == services,
        bound.listeners == listeners,
        bound.connection_settings == config.connection_settings,
        *bound.destination_provider == config.destination_provider,
        bound.forward_sender == services,
        unbound == handler,
{
}

/// A socket that is taken out of a listener and comes back is where it was. One that is lost is an
/// error, and is missing then.
pub proof fn sockets_of_hosts_come_back<L, S>(
    before: BoundTlsRpHandler<L, S>,
    taken: Option<L>,
    between: BoundTlsRpHandler<L, S>,
    back: Option<L>,
    after: BoundTlsRpHandler<L, S>,
    r: Result<(), ListenerLost>,
)
    requires
        exists|h: &mut BoundTlsRpHandler<L, S>|
            *h == before && *final(h) == between && #[trigger] call_ensures(
                BoundTlsRpHandler::<L, S>::next_listener,
                (h,),
                taken,
            ),
        exists|h: &mut BoundTlsRpHandler<L, S>|
            *h == between && *final(h) == after && #[trigger] call_ensures(
                BoundTlsRpHandler::<L, S>::rejoin,
                (h, back),
                r,
            ),
    ensures
        taken is None <==> before.listeners@.len() == 0,
        taken is None ==> between.listeners@ == before.listeners@,
        taken matches Some(l) ==> between.listeners@.push(l) == before.listeners@,
        r is Ok <==> back is Some,
        back is None ==> after.listeners@ == between.listeners@,
        back matches Some(l) ==> after.listeners@ == between.listeners@.push(l),
        after.connection_settings == before.connection_settings,
        after.destination_provider == before.destination_provider,
        after.forward_sender == before.forward_sender,
        between.connection_settings == before.connection_settings,
        between.destination_provider == before.destination_provider,
        between.forward_sender == before.forward_sender,
{
}

/// Every forwarded port is bound once, on the first address, with the destinations that belong to
/// it. The last port of the list comes first. Without an address nothing is bound.
pub proof fn every_port_is_bound_on_the_first_address(
    ips: Seq<IpAddr>,
    provider: Seq<(u16, PossibleDestinations)>,
)
    ensures
        ips.len() == 0 ==> planned_targets(ips, provider).len() == 0,
        ips.len() > 0 ==> planned_targets(ips, provider).len() == provider.len(),
        forall|i: int|
            #![trigger planned_targets(ips, provider)[i]]
            ips.len() > 0 && 0 <= i < provider.len() ==> {
                let (socket, entry) = planned_targets(ips, provider)[i];
                &&& socket.ip == ips[0]
                &&& socket.port == entry.0
                &&& entry == provider[provider.len() - 1 - i]
            },
{
}

/// What is planned for forwarded ports is that, and the settings and services stay.
pub proof fn forwarded_ports_are_bound<S>(
    handler: SimpleTcpHandler<S>,
    settings: &BindSettings,
    i: int,
    plan: TcpBindPlan<S>,
)
    requires
        call_ensures(SimpleTcpHandler::<S>::bind_plan, (handler, settings), plan),
    ensures
        plan.connection_settings == handler.connection_settings,
        plan.forward_sender == handler.forward_sender,
        settings.bind_ip_addrs@.len() == 0 ==> plan.targets@.len() == 0,
        settings.bind_ip_addrs@.len() > 0 ==> plan.targets@.len()
            == handler.destination_provider@.len(),
        settings.bind_ip_addrs@.len() > 0 && 0 <= i < plan.targets@.len() ==> {
            let entry = handler.destination_provider@[plan.targets@.len() - 1 - i];
            &&& plan.targets@[i].0.ip == settings.bind_ip_addrs@[0]
            &&& plan.targets@[i].0.port == entry.0
            &&& plan.targets@[i].1 == entry
        },
{
}

/// The listener for ports keeps its settings, its services and what belongs to its sockets.
pub proof fn the_port_listener_keeps_its_parts<L, S>(
    config: SimpleTcpHandlerConfig,
    services: ServiceForwardTable<S>,
    handler: SimpleTcpHandler<S>,
    plan: TcpBindPlan<S>,
    listeners: Vec<(L, (u16, PossibleDestinations))>,
    bound: BoundSimpleTcpHandler<L, S>,
    unbound: SimpleTcpHandler<S>,
    i: int,
)
    requires
        call_ensures(SimpleTcpHandler::<S>::new, (config, services), handler),
        call_ensures(TcpBindPlan::<S>::bound::<L>, (plan, listeners), bound),
        call_ensures(BoundSimpleTcpHandler::<L, S>::unbind, (bound,), unbound),
    ensures
        handler.connection_settings == config.connection_settings,
        handler.destination_provider == config.destination_provider,
        handler.forward_sender == services,
        bound.listeners == listeners,
        bound.connection_settings == plan.connection_settings,
        bound.forward_sender == plan.forward_sender,
        unbound.connection_settings == plan.connection_settings,
        unbound.forward_sender == plan.forward_sender,
        unbound.destination_provider@.len() == listeners@.len(),
        0 <= i < listeners@.len() ==> unbound.destination_provider@[i] == listeners@[i].1,
{
}

/// A socket that is taken out of a listener and comes back is where it was. One that is lost is
/// done without.
pub proof fn sockets_of_ports_come_back<L, S>(
    before: BoundSimpleTcpHandler<L, S>,
    taken: Option<(L, (u16, PossibleDestinations))>,
    between: BoundSimpleTcpHandler<L, S>,
    back: Option<(L, (u16, PossibleDestinations))>,
    after: BoundSimpleTcpHandler<L, S>,
)
    requires
        exists|h: &mut BoundSimpleTcpHandler<L, S>|
            *h == before && *final(h) == between && #[trigger] call_ensures(
                BoundSimpleTcpHandler::<L, S>::next_listener,
                (h,),
                taken,
            ),
        exists|h: &mut BoundSimpleTcpHandler<L, S>|
            *h == between && *final(h) == after && #[trigger] call_ensures(
                BoundSimpleTcpHandler::<L, S>::rejoin,
                (h, back),
                (),
            ),
    ensures
        taken is None <==> before.listeners@.len() == 0,
        taken is None ==> between.listeners@ == before.listeners@,
        taken matches Some(l) ==> between.listeners@.push(l) == before.listeners@,
        back is None ==> after.listeners@ == between.listeners@,
        back matches Some(l) ==> after.listeners@ == between.listeners@.push(l),
        after.connection_settings == before.connection_settings,
        after.forward_sender == before.forward_sender,
        between.connection_settings == before.connection_settings,
        between.forward_sender == before.forward_sender,
{
}

/// A connection to a forwarded port goes to the first destination where there is no gatekeeper, or
/// where the gatekeeper approves of it. Otherwise it goes to the other destination, or nowhere. The
/// load balancer takes it there.
pub proof fn the_gatekeeper_decides<S>(
    services: &ServiceForwardTable<S>,
    destinations: &PossibleDestinations,
    approved: bool,
    r: Option<(InternalService, Destination)>,
)
    requires
        call_ensures(incoming_destination::<S>, (services, destinations, approved), r),
    ensures
        r matches Some((service, _)) ==> service == InternalService::LoadBalancer,
        approved || !services@.contains_key(InternalService::GatekeeperAuth) ==> (r matches Some(
            (_, destination),
        ) && destination@ == destinations.destination@),
        !approved && services@.contains_key(InternalService::GatekeeperAuth) ==> match (
            destinations.else_destination,
            r,
        ) {
            (Some(other), Some((_, destination))) => destination@ == other@,
            (None, None) => true,
            _ => false,
        },
{
}

} // verus!
