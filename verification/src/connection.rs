//! Connections on their way through the proxy, and where they may go.

pub mod read_back;

use std::sync::Arc;
use vstd::prelude::*;
use vstd::string::*;
use crate::addr::display::{
    list_string, list_text, number_string, number_text, socket_string, socket_text,
};
use crate::addr::{ip_value, parse_ip, IpAddr, SocketAddr};
use crate::config::settings::ConnectionSettings;
use crate::services::{service_named, InternalService};
use crate::text::{
    bounded_value, parse_u16, pieces, rsplit_once, split, split_at_first, split_at_last, split_once,
    strip_brackets, trim, trimmed, views, without_brackets,
};

verus! {

/// Where a connection goes.
#[derive(Debug, PartialEq, PartialOrd)]
pub enum Destination {
    /// Only the port is given; the load balancer picks the machine.
    PortOnly(u16),
    /// One socket, to be taken as it is.
    Socket(SocketAddr),
    /// A port on any of the given machines.
    PortAndAddrs(u16, Arc<Vec<IpAddr>>),
    /// A service inside the proxy.
    InternalService(InternalService),
}

/// A destination as a value.
#[verifier::ext_equal]
pub enum DestinationView {
    PortOnly(u16),
    Socket(SocketAddr),
    PortAndAddrs(u16, Seq<IpAddr>),
    InternalService(InternalService),
}

impl View for Destination {
    type V = DestinationView;

    open spec fn view(&self) -> DestinationView {
        match *self {
            Destination::PortOnly(port) => DestinationView::PortOnly(port),
            Destination::Socket(socket) => DestinationView::Socket(socket),
            Destination::PortAndAddrs(port, addrs) => DestinationView::PortAndAddrs(port, addrs@),
            Destination::InternalService(service) => DestinationView::InternalService(service),
        }
    }
}

impl Clone for Destination {
    fn clone(&self) -> (r: Self)
        ensures
            r == *self,
    {
        match self {
            Destination::PortOnly(port) => Destination::PortOnly(*port),
            Destination::Socket(socket) => Destination::Socket(*socket),
            Destination::PortAndAddrs(port, addrs) => Destination::PortAndAddrs(
                *port,
                addrs.clone(),
            ),
            Destination::InternalService(service) => Destination::InternalService(*service),
        }
    }
}

impl DestinationView {
    /// A destination as a phrase, to stand after "to".
    pub open spec fn phrase(self) -> Seq<char> {
        match self {
            DestinationView::PortOnly(port) => "port "@ + number_text(port as nat, 10),
            DestinationView::Socket(socket) => "socket "@ + socket_text(socket),
            DestinationView::PortAndAddrs(port, addrs) => "port "@ + number_text(port as nat, 10)
                + " with addresses: "@ + list_text(addrs),
            DestinationView::InternalService(service) => service.slug(),
        }
    }

    /// A destination with its parts named.
    pub open spec fn parts_text(self) -> Seq<char> {
        match self {
            DestinationView::PortOnly(port) => "[port: "@ + number_text(port as nat, 10) + "]"@,
            DestinationView::Socket(socket) => "[socket: "@ + socket_text(socket) + "]"@,
            DestinationView::PortAndAddrs(port, addrs) => "[port: "@ + number_text(port as nat, 10)
                + ", addresses: "@ + list_text(addrs) + "]"@,
            DestinationView::InternalService(service) => "[service: "@ + service.slug() + "]"@,
        }
    }
}

impl Destination {
    /// Writes the destination as a phrase, to stand after "to".
    pub fn to_phrase(&self) -> (r: String)
        ensures
            r@ == self@.phrase(),
    {
        match self {
            Destination::PortOnly(port) => {
                let mut s = "port ".to_owned();
                s.append(number_string(*port as u32, 10).as_str());
                s
            },
            Destination::Socket(socket) => {
                let mut s = "socket ".to_owned();
                s.append(socket_string(*socket).as_str());
                s
            },
            Destination::PortAndAddrs(port, addrs) => {
                let mut s = "port ".to_owned();
                s.append(number_string(*port as u32, 10).as_str());
                s.append(" with addresses: ");
                s.append(list_string(&**addrs).as_str());
                s
            },
            Destination::InternalService(service) => service.slug_name().to_owned(),
        }
    }

    /// Writes the destination with its parts named.
    pub fn to_parts(&self) -> (r: String)
        ensures
            r@ == self@.parts_text(),
    {
        let mut s = match self {
            Destination::PortOnly(port) => {
                let mut s = "[port: ".to_owned();
                s.append(number_string(*port as u32, 10).as_str());
                s
            },
            Destination::Socket(socket) => {
                let mut s = "[socket: ".to_owned();
                s.append(socket_string(*socket).as_str());
                s
            },
            Destination::PortAndAddrs(port, addrs) => {
                let mut s = "[port: ".to_owned();
                s.append(number_string(*port as u32, 10).as_str());
                s.append(", addresses: ");
                s.append(list_string(&**addrs).as_str());
                s
            },
            Destination::InternalService(service) => {
                let mut s = "[service: ".to_owned();
                s.append(service.slug_name());
                s
            },
        };
        s.append("]");
        s
    }
}

/// Why a text writes no destination.
#[derive(Clone, Copy, Debug, PartialEq, Eq, Structural)]
pub enum DestinationError {
    /// What follows the last colon is not a port.
    Port,
    /// One of the addresses cannot be read.
    Address,
}

/// The addresses of a list. Brackets and white space round an address do not count, and what is
/// then empty is passed over.
pub open spec fn listed_addresses(list: Seq<Seq<char>>) -> Option<Seq<IpAddr>>
    decreases list.len(),
{
    if list.len() == 0 {
        Some(Seq::empty())
    } else {
        let text = without_brackets(trimmed(list.last()));
        match listed_addresses(list.drop_last()) {
            Some(front) => if text.len() == 0 {
                Some(front)
            } else {
                match ip_value(text) {
                    Some(ip) => Some(front.push(ip)),
                    None => None,
                }
            },
            None => None,
        }
    }
}

/// What stands before and after the last colon, without white space; without a colon the whole
/// text is the port.
pub open spec fn addresses_and_port(s: Seq<char>) -> (Seq<char>, Seq<char>) {
    match split_at_last(s, ':') {
        Some((addrs, port)) => (trimmed(addrs), trimmed(port)),
        None => (Seq::empty(), trimmed(s)),
    }
}

/// The destination for a port and the addresses before it.
pub open spec fn destination_at(port: u16, addrs: Seq<IpAddr>) -> DestinationView {
    if addrs.len() == 0 {
        DestinationView::PortOnly(port)
    } else if addrs.len() == 1 {
        DestinationView::Socket(SocketAddr { ip: addrs[0], port })
    } else {
        DestinationView::PortAndAddrs(port, addrs)
    }
}

/// The destination that a text writes: the name of a service, or a port with a list of addresses
/// and a colon before it.
pub open spec fn destination_value(s: Seq<char>, test_build: bool) -> Result<
    DestinationView,
    DestinationError,
> {
    match service_named(s, test_build) {
        Some(service) => Ok(DestinationView::InternalService(service)),
        None => {
            let (addrs, port) = addresses_and_port(s);
            match (bounded_value(port, u16::MAX as nat), listed_addresses(pieces(addrs, ','))) {
                (None, _) => Err(DestinationError::Port),
                (Some(_), None) => Err(DestinationError::Address),
                (Some(n), Some(ips)) => Ok(destination_at(n as u16, ips)),
            }
        },
    }
}

proof fn lemma_unlisted(list: Seq<Seq<char>>, i: int)
    requires
        0 <= i <= list.len(),
        listed_addresses(list.take(i)) is None,
    ensures
        listed_addresses(list) is None,
    decreases list.len() - i,
{
    if i < list.len() {
        assert(list.take(i + 1).drop_last() =~= list.take(i));
        lemma_unlisted(list, i + 1);
    } else {
        assert(list.take(i) =~= list);
    }
}

fn parse_addresses(s: &str) -> (r: Option<Vec<IpAddr>>)
    ensures
        match r {
            Some(ips) => listed_addresses(pieces(s@, ',')) == Some(ips@),
            None => listed_addresses(pieces(s@, ',')) is None,
        },
{
    let list = split(s, ',');
    let ghost texts = views(list@);
    let mut ips: Vec<IpAddr> = Vec::new();
    let mut i: usize = 0;
    assert(texts.take(0) =~= Seq::<Seq<char>>::empty());
    while i < list.len()
        invariant
            i <= list.len(),
            texts == views(list@),
            texts == pieces(s@, ','),
            listed_addresses(texts.take(i as int)) == Some(ips@),
        decreases list.len() - i,
    {
        assert(texts.take(i + 1).drop_last() =~= texts.take(i as int));
        assert(texts.take(i + 1).last() == list[i as int]@);
        let text = strip_brackets(trim(list[i]));
        if !text.as_str().is_empty() {
            match parse_ip(text.as_str()) {
                Some(ip) => {
                    ips.push(ip);
                },
                None => {
                    proof {
                        lemma_unlisted(texts, i + 1);
                    }
                    return None;
                },
            }
        }
        i += 1;
    }
    assert(texts.take(i as int) =~= texts);
    Some(ips)
}

impl Destination {
    pub fn with_port(port: u16) -> (r: Self)
        ensures
            r@ == DestinationView::PortOnly(port),
    {
        Destination::PortOnly(port)
    }

    pub fn with_socket_addr(socket_addr: SocketAddr) -> (r: Self)
        ensures
            r@ == DestinationView::Socket(socket_addr),
    {
        Destination::Socket(socket_addr)
    }

    pub fn with_port_and_pref_addrs(port: u16, addrs: Vec<IpAddr>) -> (r: Self)
        ensures
            r@ == DestinationView::PortAndAddrs(port, addrs@),
    {
        Destination::PortAndAddrs(port, Arc::new(addrs))
    }

    pub fn with_internal_service(service: InternalService) -> (r: Self)
        ensures
            r@ == DestinationView::InternalService(service),
    {
        Destination::InternalService(service)
    }

    /// Reads a destination. The split is at the last colon, so that the colons of version 6
    /// addresses are left alone.
    pub fn from_str(s: &str, test_build: bool) -> (r: Result<Self, DestinationError>)
        ensures
            match r {
                Ok(destination) => destination_value(s@, test_build) == Ok::<
                    DestinationView,
                    DestinationError,
                >(destination@),
                Err(e) => destination_value(s@, test_build) == Err::<
                    DestinationView,
                    DestinationError,
                >(e),
            },
    {
        if let Ok(service) = InternalService::from_str(s, test_build) {
            return Ok(Destination::InternalService(service));
        }
        let (addrs_str, port_str) = match rsplit_once(s, ':') {
            Some((addrs, port)) => (trim(addrs), trim(port)),
            None => (s.substring_char(0, 0), trim(s)),
        };
        assert(addresses_and_port(s@).0 =~= addrs_str@);
        let port = match parse_u16(port_str) {
            Some(port) => port,
            None => {
                return Err(DestinationError::Port);
            },
        };
        match parse_addresses(addrs_str) {
            Some(addrs) => if addrs.len() == 0 {
                Ok(Self::with_port(port))
            } else if addrs.len() > 1 {
                Ok(Self::with_port_and_pref_addrs(port, addrs))
            } else {
                Ok(Self::with_socket_addr(SocketAddr::new(addrs[0], port)))
            },
            None => Err(DestinationError::Address),
        }
    }
}

/// Where a connection goes when it is accepted, and where else when it is refused.
#[derive(Debug, PartialEq)]
pub struct PossibleDestinations {
    pub destination: Destination,
    pub else_destination: Option<Destination>,
}

/// Possible destinations as values.
#[verifier::ext_equal]
pub struct PossibleDestinationsView {
    pub destination: DestinationView,
    pub else_destination: Option<DestinationView>,
}

impl View for PossibleDestinations {
    type V = PossibleDestinationsView;

    open spec fn view(&self) -> PossibleDestinationsView {
        PossibleDestinationsView {
            destination: self.destination@,
            else_destination: match self.else_destination {
                Some(d) => Some(d@),
                None => None,
            },
        }
    }
}

impl Clone for PossibleDestinations {
    fn clone(&self) -> (r: Self)
        ensures
            r == *self,
    {
        PossibleDestinations {
            destination: self.destination.clone(),
            else_destination: match &self.else_destination {
                Some(d) => Some(d.clone()),
                None => None,
            },
        }
    }
}

impl PossibleDestinationsView {
    /// The destination under the given condition.
    pub open spec fn under(self, condition: bool) -> Option<DestinationView> {
        if condition {
            Some(self.destination)
        } else {
            self.else_destination
        }
    }
}

/// The possible destinations that a text writes: a destination, and behind a bar the one for
/// refused connections.
pub open spec fn possible_destinations_value(s: Seq<char>, test_build: bool) -> Result<
    PossibleDestinationsView,
    DestinationError,
> {
    match split_at_first(s, '|') {
        Some((accept, refuse)) => match (
            destination_value(accept, test_build),
            destination_value(refuse, test_build),
        ) {
            (Ok(a), Ok(r)) => Ok(
                PossibleDestinationsView { destination: a, else_destination: Some(r) },
            ),
            (Err(e), _) => Err(e),
            (Ok(_), Err(e)) => Err(e),
        },
        None => match destination_value(s, test_build) {
            Ok(a) => Ok(PossibleDestinationsView { destination: a, else_destination: None }),
            Err(e) => Err(e),
        },
    }
}

impl PossibleDestinations {
    pub fn without_else(destination: Destination) -> (r: Self)
        ensures
            r.destination == destination,
            r.else_destination is None,
    {
        PossibleDestinations { destination, else_destination: None }
    }

    pub fn with_else(destination: Destination, else_destination: Destination) -> (r: Self)
        ensures
            r.destination == destination,
            r.else_destination == Some(else_destination),
    {
        PossibleDestinations { destination, else_destination: Some(else_destination) }
    }

    pub fn try_into_inner(self, condition: bool) -> (r: Option<Destination>)
        ensures
            match r {
                Some(d) => self@.under(condition) == Some(d@),
                None => self@.under(condition) is None,
            },
    {
        if condition {
            Some(self.destination)
        } else {
            self.else_destination
        }
    }

    pub fn try_get_inner(&self, condition: bool) -> (r: Option<&Destination>)
        ensures
            match r {
                Some(d) => self@.under(condition) == Some(d@),
                None => self@.under(condition) is None,
            },
    {
        if condition {
            Some(&self.destination)
        } else {
            self.else_destination.as_ref()
        }
    }

    pub fn get_only_destination(&self) -> (r: &Destination)
        ensures
            *r == self.destination,
    {
        &self.destination
    }

    /// Reads possible destinations. `test_build` tells whether the service for tests is known.
    pub fn from_str(s: &str, test_build: bool) -> (r: Result<Self, DestinationError>)
        ensures
            match r {
                Ok(possible) => possible_destinations_value(s@, test_build) == Ok::<
                    PossibleDestinationsView,
                    DestinationError,
                >(possible@),
                Err(e) => possible_destinations_value(s@, test_build) == Err::<
                    PossibleDestinationsView,
                    DestinationError,
                >(e),
            },
    {
        match split_once(s, '|') {
            Some((accept, refuse)) => {
                let destination = Destination::from_str(accept, test_build)?;
                let else_destination = Destination::from_str(refuse, test_build)?;
                Ok(Self::with_else(destination, else_destination))
            },
            None => Ok(Self::without_else(Destination::from_str(s, test_build)?)),
        }
    }
}

/// The stream that a connection runs over.
pub enum ConnectionInner<T> {
    Tcp(T),
    Quic,
}

impl<T> ConnectionInner<T> {
    /// The stream, where it is a TCP stream.
    pub fn tcp(self) -> (r: Option<T>)
        ensures
            r == match self {
                ConnectionInner::Tcp(stream) => Some(stream),
                ConnectionInner::Quic => None,
            },
    {
        match self {
            ConnectionInner::Tcp(stream) => Some(stream),
            ConnectionInner::Quic => None,
        }
    }
}

/// A connection that waits to be handled.
pub struct ForwardedConnection<T> {
    pub inner: ConnectionInner<T>,
    pub settings: ConnectionSettings,
    pub destination: Destination,
    pub remote_socket: SocketAddr,
}

impl<T> ForwardedConnection<T> {
    /// Wraps a TCP stream, to be handled later.
    pub fn new_tcp_conn(
        tcp_stream: T,
        remote_socket: SocketAddr,
        settings: ConnectionSettings,
        destination: Destination,
    ) -> (r: Self)
        ensures
            r == (ForwardedConnection {
                inner: ConnectionInner::Tcp(tcp_stream),
                settings,
                destination,
                remote_socket,
            }),
    {
        Self::new_conn_with_inner(
            ConnectionInner::Tcp(tcp_stream),
            remote_socket,
            settings,
            destination,
        )
    }

    pub fn new_conn_with_inner(
        inner: ConnectionInner<T>,
        remote_socket: SocketAddr,
        settings: ConnectionSettings,
        destination: Destination,
    ) -> (r: Self)
        ensures
            r == (ForwardedConnection { inner, settings, destination, remote_socket }),
    {
        ForwardedConnection { inner, settings, destination, remote_socket }
    }

    pub fn into_inner(self) -> (r: (ConnectionInner<T>, SocketAddr, ConnectionSettings))
        ensures
            r == (self.inner, self.remote_socket, self.settings),
    {
        (self.inner, self.remote_socket, self.settings)
    }
}

} // verus!
