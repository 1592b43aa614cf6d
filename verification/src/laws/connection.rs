//! Destinations: how they are read, and which one counts.

use vstd::prelude::*;
use crate::addr::display::{list_text, number_text, socket_text};
use crate::addr::{ip_value, IpAddr, SocketAddr};
use crate::config::settings::ConnectionSettings;
use crate::connection::{
    destination_value, listed_addresses, possible_destinations_value, ConnectionInner, Destination,
    DestinationError, DestinationView, ForwardedConnection, PossibleDestinations,
    PossibleDestinationsView,
};
use crate::laws::text::lacks;
use crate::services::{service_named, InternalService};
use crate::text::{
    lemma_first_index_is, lemma_last_index_is, pieces, trimmed, unsigned_value, without_brackets,
};

verus! {

/// The services go by these names and no others.
pub proof fn services_have_these_names(s: Seq<char>, test_build: bool)
    ensures
        service_named(s, test_build) == Some(InternalService::SshTarpit) <==> s == "ssh-tarpit"@,
        service_named(s, test_build) == Some(InternalService::LoadBalancer) <==> s
            == "load-balancer"@,
        service_named(s, test_build) == Some(InternalService::GatekeeperAuth) <==> s
            == "gatekeeper-auth"@,
        service_named(s, test_build) == Some(InternalService::TestService) <==> test_build && s
            == "test-service"@,
        InternalService::SshTarpit.slug() == "ssh-tarpit"@,
        InternalService::LoadBalancer.slug() == "load-balancer"@,
        InternalService::GatekeeperAuth.slug() == "gatekeeper-auth"@,
        InternalService::TestService.slug() == "test-service"@,
{
    reveal_strlit("ssh-tarpit");
    reveal_strlit("load-balancer");
    reveal_strlit("gatekeeper-auth");
    reveal_strlit("test-service");
    assert("ssh-tarpit"@[0] == 's');
    assert("load-balancer"@[0] == 'l');
    assert("gatekeeper-auth"@[0] == 'g');
    assert("test-service"@[0] == 't');
}

/// What contracts see of a destination is all there is to it.
pub proof fn destinations_are_seen_whole(
    port: u16,
    socket: SocketAddr,
    addrs: std::sync::Arc<Vec<IpAddr>>,
    service: InternalService,
    destination: Destination,
    possible: PossibleDestinations,
)
    ensures
        Destination::PortOnly(port)@ == DestinationView::PortOnly(port),
        Destination::Socket(socket)@ == DestinationView::Socket(socket),
        Destination::PortAndAddrs(port, addrs)@ == DestinationView::PortAndAddrs(port, addrs@),
        Destination::InternalService(service)@ == DestinationView::InternalService(service),
        possible@.destination == possible.destination@,
        possible@.else_destination is Some <==> possible.else_destination is Some,
        possible.else_destination matches Some(d) ==> possible@.else_destination == Some(d@),
{
}

/// The addresses of a list are taken in turn. What is empty without white space and brackets is
/// passed over, every other item has to be an address.
pub proof fn addresses_are_taken_in_turn(list: Seq<Seq<char>>, item: Seq<char>)
    ensures
        listed_addresses(Seq::empty()) == Some(Seq::<IpAddr>::empty()),
        ({
            let text = without_brackets(trimmed(item));
            listed_addresses(list.push(item)) == match listed_addresses(list) {
                Some(front) => match ip_value(text) {
                    Some(ip) => if text.len() > 0 {
                        Some(front.push(ip))
                    } else {
                        Some(front)
                    },
                    None => if text.len() > 0 {
                        None
                    } else {
                        Some(front)
                    },
                },
                None => None,
            }
        }),
{
    assert(list.push(item).drop_last() =~= list);
}

/// A text that names no service is a port with addresses and a colon before it. Without an address
/// it is the port on any machine, with one a socket, with more the port on those machines. The port
/// is looked at before the addresses.
pub proof fn addresses_stand_before_the_last_colon(
    list: Seq<char>,
    port: Seq<char>,
    test_build: bool,
)
    requires
        lacks(port, ':'),
        service_named(list + seq![':'] + port, test_build) is None,
    ensures
        ({
            let addresses = listed_addresses(pieces(trimmed(list), ','));
            destination_value(list + seq![':'] + port, test_build) == match unsigned_value(
                trimmed(port),
            ) {
                Some(n) => if n > 65535 {
                    Err(DestinationError::Port)
                } else {
                    match addresses {
                        None => Err(DestinationError::Address),
                        Some(ips) => Ok(
                            if ips.len() == 0 {
                                DestinationView::PortOnly(n as u16)
                            } else if ips.len() == 1 {
                                DestinationView::Socket(SocketAddr { ip: ips[0], port: n as u16 })
                            } else {
                                DestinationView::PortAndAddrs(n as u16, ips)
                            },
                        ),
                    }
                },
                None => Err(DestinationError::Port),
            }
        }),
{
    let s = list + seq![':'] + port;
    let n = list.len() as int;
    assert forall|j: int| n < j < s.len() implies s[j] != ':' by {
        assert(s[j] == port[j - n - 1]);
    }
    lemma_last_index_is(s, ':', n);
    assert(s.take(n) =~= list);
    assert(s.skip(n + 1) =~= port);
}

/// A text without a colon that names no service is a port by itself.
pub proof fn ports_stand_by_themselves(s: Seq<char>, test_build: bool)
    requires
        lacks(s, ':'),
        service_named(s, test_build) is None,
    ensures
        destination_value(s, test_build) == match unsigned_value(trimmed(s)) {
            Some(n) => if n <= 65535 {
                Ok(DestinationView::PortOnly(n as u16))
            } else {
                Err(DestinationError::Port)
            },
            None => Err(DestinationError::Port),
        },
{
    lemma_last_index_is(s, ':', -1);
    let none = Seq::<char>::empty();
    crate::addr::read_back::lemma_one_piece(none, ',');
    assert(seq![none].drop_last() =~= Seq::empty());
    assert(listed_addresses(Seq::empty()) == Some(Seq::<IpAddr>::empty()));
    assert(trimmed(none) =~= none);
    assert(without_brackets(none) =~= none) by {
        reveal(Seq::filter);
    }
    assert(listed_addresses(seq![none]) == Some(Seq::<IpAddr>::empty()));
}

/// The name of a service is that service, before anything else is tried.
pub proof fn services_come_first(s: Seq<char>, test_build: bool)
    ensures
        service_named(s, test_build) matches Some(service) ==> destination_value(s, test_build)
            == Ok::<DestinationView, DestinationError>(DestinationView::InternalService(service)),
        destination_value(s, test_build) matches Ok(DestinationView::InternalService(service))
            ==> service_named(s, test_build) == Some(service),
{
}

/// Without a bar there is the one destination. With bars there are two, parted at the first, and
/// the error of the first destination counts before that of the second.
pub proof fn the_first_bar_parts_the_destinations(
    accept: Seq<char>,
    refuse: Seq<char>,
    test_build: bool,
)
    requires
        lacks(accept, '|'),
    ensures
        match destination_value(accept, test_build) {
            Ok(a) => {
                &&& possible_destinations_value(accept, test_build) == Ok::<
                    PossibleDestinationsView,
                    DestinationError,
                >(PossibleDestinationsView { destination: a, else_destination: None })
                &&& possible_destinations_value(accept + seq!['|'] + refuse, test_build)
                    == match destination_value(refuse, test_build) {
                    Ok(b) => Ok(
                        PossibleDestinationsView { destination: a, else_destination: Some(b) },
                    ),
                    Err(e) => Err(e),
                }
            },
            Err(e) => {
                &&& possible_destinations_value(accept, test_build) == Err::<
                    PossibleDestinationsView,
                    DestinationError,
                >(e)
                &&& possible_destinations_value(accept + seq!['|'] + refuse, test_build) == Err::<
                    PossibleDestinationsView,
                    DestinationError,
                >(e)
            },
        },
{
    lemma_first_index_is(accept, '|', accept.len() as int);
    let s = accept + seq!['|'] + refuse;
    let n = accept.len() as int;
    assert forall|j: int| 0 <= j < n implies s[j] != '|' by {
        assert(s[j] == accept[j]);
    }
    lemma_first_index_is(s, '|', n);
    assert(s.take(n) =~= accept);
    assert(s.skip(n + 1) =~= refuse);
}

/// What is read is what the text writes, and a text that is refused writes nothing.
pub proof fn destinations_are_read(
    s: &str,
    test_build: bool,
    one: Result<Destination, DestinationError>,
    two: Result<PossibleDestinations, DestinationError>,
)
    requires
        call_ensures(Destination::from_str, (s, test_build), one),
        call_ensures(PossibleDestinations::from_str, (s, test_build), two),
    ensures
        one matches Ok(d) ==> destination_value(s@, test_build) == Ok::<
            DestinationView,
            DestinationError,
        >(d@),
        one matches Err(e) ==> destination_value(s@, test_build) == Err::<
            DestinationView,
            DestinationError,
        >(e),
        two matches Ok(p) ==> possible_destinations_value(s@, test_build) == Ok::<
            PossibleDestinationsView,
            DestinationError,
        >(p@),
        two matches Err(e) ==> possible_destinations_value(s@, test_build) == Err::<
            PossibleDestinationsView,
            DestinationError,
        >(e),
{
}

/// An accepted connection goes to the first destination, which is always there. A refused one goes
/// to the other, or nowhere.
pub proof fn the_answer_picks_the_destination(
    possible: PossibleDestinations,
    accepted: Option<&Destination>,
    refused: Option<&Destination>,
    only: &Destination,
    taken: Option<Destination>,
    left: Option<Destination>,
)
    requires
        call_ensures(PossibleDestinations::try_get_inner, (&possible, true), accepted),
        call_ensures(PossibleDestinations::try_get_inner, (&possible, false), refused),
        call_ensures(PossibleDestinations::get_only_destination, (&possible,), only),
        call_ensures(PossibleDestinations::try_into_inner, (possible, true), taken),
        call_ensures(PossibleDestinations::try_into_inner, (possible, false), left),
    ensures
        accepted matches Some(d) && d@ == possible.destination@,
        match possible.else_destination {
            Some(other) => {
                &&& refused matches Some(d) && d@ == other@
                &&& left matches Some(d) && d@ == other@
            },
            None => refused is None && left is None,
        },
        *only == possible.destination,
        taken matches Some(d) && d@ == possible.destination@,
        possible@.under(true) == Some(possible.destination@),
        possible@.under(false) is None <==> possible.else_destination is None,
        possible.else_destination matches Some(d) ==> possible@.under(false) == Some(d@),
{
}

/// A destination is written as a phrase and with its parts named.
pub proof fn destinations_are_written(d: &Destination, phrase: String, parts: String)
    requires
        call_ensures(Destination::to_phrase, (d,), phrase),
        call_ensures(Destination::to_parts, (d,), parts),
    ensures
        match *d {
            Destination::PortOnly(port) => {
                &&& phrase@ == "port "@ + number_text(port as nat, 10)
                &&& parts@ == "[port: "@ + number_text(port as nat, 10) + "]"@
            },
            Destination::Socket(socket) => {
                &&& phrase@ == "socket "@ + socket_text(socket)
                &&& parts@ == "[socket: "@ + socket_text(socket) + "]"@
            },
            Destination::PortAndAddrs(port, addrs) => {
                &&& phrase@ == "port "@ + number_text(port as nat, 10) + " with addresses: "@
                    + list_text(addrs@)
                &&& parts@ == "[port: "@ + number_text(port as nat, 10) + ", addresses: "@
                    + list_text(addrs@) + "]"@
            },
            Destination::InternalService(service) => {
                &&& phrase@ == service.slug()
                &&& parts@ == "[service: "@ + service.slug() + "]"@
            },
        },
{
}

/// A connection keeps its stream, where it comes from, its settings and its destination.
pub proof fn connections_keep_what_they_are_given<T>(
    stream: T,
    remote: SocketAddr,
    settings: ConnectionSettings,
    destination: Destination,
    conn: ForwardedConnection<T>,
    inner: (ConnectionInner<T>, SocketAddr, ConnectionSettings),
)
    requires
        call_ensures(
            ForwardedConnection::<T>::new_tcp_conn,
            (stream, remote, settings, destination),
            conn,
        ),
        call_ensures(ForwardedConnection::<T>::into_inner, (conn,), inner),
    ensures
        conn.inner == ConnectionInner::Tcp(stream),
        conn.remote_socket == remote,
        conn.settings == settings,
        conn.destination == destination,
        inner == (ConnectionInner::Tcp(stream), remote, settings),
{
}

/// Destinations and connections are made of what they are given.
pub proof fn destinations_are_made(
    port: u16,
    socket: SocketAddr,
    addrs: Vec<IpAddr>,
    service: InternalService,
    of_port: Destination,
    of_socket: Destination,
    of_addrs: Destination,
    of_service: Destination,
    only: PossibleDestinations,
    both: PossibleDestinations,
    copy: Destination,
    copies: PossibleDestinations,
)
    requires
        call_ensures(Destination::with_port, (port,), of_port),
        call_ensures(Destination::with_socket_addr, (socket,), of_socket),
        call_ensures(Destination::with_port_and_pref_addrs, (port, addrs), of_addrs),
        call_ensures(Destination::with_internal_service, (service,), of_service),
        call_ensures(PossibleDestinations::without_else, (of_port,), only),
        call_ensures(PossibleDestinations::with_else, (of_port, of_socket), both),
        call_ensures(Destination::clone, (&of_addrs,), copy),
        call_ensures(PossibleDestinations::clone, (&both,), copies),
    ensures
        of_port@ == DestinationView::PortOnly(port),
        of_socket@ == DestinationView::Socket(socket),
        of_addrs@ == DestinationView::PortAndAddrs(port, addrs@),
        of_service@ == DestinationView::InternalService(service),
        only.destination == of_port,
        only.else_destination is None,
        both.destination == of_port,
        both.else_destination == Some(of_socket),
        copy@ == of_addrs@,
        copies@ == both@,
{
}

/// The stream of a connection is there where it runs over TCP.
pub proof fn streams_run_over_tcp<T>(
    inner: ConnectionInner<T>,
    remote: SocketAddr,
    settings: ConnectionSettings,
    destination: Destination,
    conn: ForwardedConnection<T>,
    stream: Option<T>,
)
    requires
        call_ensures(
            ForwardedConnection::<T>::new_conn_with_inner,
            (inner, remote, settings, destination),
            conn,
        ),
        call_ensures(ConnectionInner::<T>::tcp, (inner,), stream),
    ensures
        conn.inner == inner,
        conn.remote_socket == remote,
        conn.settings == settings,
        conn.destination == destination,
        inner matches ConnectionInner::Tcp(s) ==> stream == Some(s),
        inner is Quic ==> stream is None,
{
}

} // verus!
