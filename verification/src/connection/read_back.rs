//! Destinations are read as they are written.

use vstd::prelude::*;
use crate::addr::display::{
    groups_text, ip_text, ipv4_text, longest_run, number_text, octets, segments, socket_text,
    zero_run,
};
use crate::addr::read_back::{
    addresses_are_read_back, is_written_digit, lemma_last_piece, lemma_one_piece,
    numbers_are_read_back,
};
use crate::addr::{IpAddr, SocketAddr};
use crate::connection::{
    destination_at, destination_value, listed_addresses, possible_destinations_value,
    DestinationError, DestinationView, PossibleDestinationsView,
};
use crate::services::{service_named, service_names_round_trip, InternalService};
use crate::text::{
    bounded_value, is_white_space, lemma_first_index_is, lemma_last_index_is, pieces, trimmed,
    trimmed_end, trimmed_start, without_brackets,
};

verus! {

/// A character of an address.
spec fn is_address_char(c: char) -> bool {
    is_written_digit(c, 16) || c == '.' || c == ':'
}

/// A text of such characters, and not an empty one.
spec fn is_plain(s: Seq<char>) -> bool {
    &&& s.len() > 0
    &&& forall|i: int| 0 <= i < s.len() ==> is_address_char(#[trigger] s[i])
}

proof fn lemma_plain_number(n: nat, radix: nat)
    requires
        radix == 10 || radix == 16,
    ensures
        is_plain(number_text(n, radix)),
{
    numbers_are_read_back(n, radix);
}

proof fn lemma_plain_sum(a: Seq<char>, b: Seq<char>)
    requires
        is_plain(a),
        is_plain(b),
    ensures
        is_plain(a + b),
{
    assert forall|i: int| 0 <= i < (a + b).len() implies is_address_char(#[trigger] (a + b)[i]) by {
        if i < a.len() {
            assert((a + b)[i] == a[i]);
        } else {
            assert((a + b)[i] == b[i - a.len()]);
        }
    }
}

proof fn lemma_plain_ipv4(bits: nat)
    ensures
        is_plain(ipv4_text(bits)),
{
    reveal_strlit(".");
    let o = octets(bits);
    let a = number_text(o[0], 10);
    let b = number_text(o[1], 10);
    let c = number_text(o[2], 10);
    let d = number_text(o[3], 10);
    lemma_plain_number(o[0], 10);
    lemma_plain_number(o[1], 10);
    lemma_plain_number(o[2], 10);
    lemma_plain_number(o[3], 10);
    lemma_plain_sum(a, "."@);
    lemma_plain_sum(a + "."@, b);
    lemma_plain_sum(a + "."@ + b, "."@);
    lemma_plain_sum(a + "."@ + b + "."@, c);
    lemma_plain_sum(a + "."@ + b + "."@ + c, "."@);
    lemma_plain_sum(a + "."@ + b + "."@ + c + "."@, d);
}

proof fn lemma_plain_groups(g: Seq<nat>)
    ensures
        g.len() > 0 ==> is_plain(groups_text(g)),
        g.len() == 0 ==> groups_text(g) == Seq::<char>::empty(),
    decreases g.len(),
{
    reveal_strlit(":");
    if g.len() == 1 {
        lemma_plain_number(g[0], 16);
    } else if g.len() > 1 {
        let front = groups_text(g.drop_last());
        lemma_plain_groups(g.drop_last());
        lemma_plain_number(g.last(), 16);
        lemma_plain_sum(front, ":"@);
        lemma_plain_sum(front + ":"@, number_text(g.last(), 16));
    }
}

proof fn lemma_plain_ip(ip: IpAddr)
    ensures
        is_plain(ip_text(ip)),
{
    match ip {
        IpAddr::V4(bits) => {
            lemma_plain_ipv4(bits as nat);
        },
        IpAddr::V6(bits) => {
            reveal_strlit("::");
            reveal_strlit("::ffff:");
            let g = segments(bits as nat);
            let start = longest_run(g, 0);
            if bits as nat / 0x100000000 == 0xffff {
                lemma_plain_ipv4(bits as nat % 0x100000000);
                lemma_plain_sum("::ffff:"@, ipv4_text(bits as nat % 0x100000000));
            } else if zero_run(g, start) > 1 {
                let head = groups_text(g.take(start));
                let tail = groups_text(g.skip(start + zero_run(g, start)));
                lemma_plain_groups(g.take(start));
                lemma_plain_groups(g.skip(start + zero_run(g, start)));
                if head.len() > 0 {
                    lemma_plain_sum(head, "::"@);
                } else {
                    assert(head + "::"@ =~= "::"@);
                }
                if tail.len() > 0 {
                    lemma_plain_sum(head + "::"@, tail);
                } else {
                    assert(head + "::"@ + tail =~= head + "::"@);
                }
            } else {
                lemma_plain_groups(g);
            }
        },
    }
}

proof fn lemma_trimmed(s: Seq<char>)
    requires
        s.len() > 0,
        !is_white_space(s[0]),
        !is_white_space(s.last()),
    ensures
        trimmed(s) == s,
{
    assert(trimmed_start(s) == s);
    assert(trimmed_end(s) == s);
}

proof fn lemma_without_brackets(s: Seq<char>)
    requires
        forall|i: int| 0 <= i < s.len() ==> is_address_char(#[trigger] s[i]),
    ensures
        without_brackets(s) == s,
    decreases s.len(),
{
    reveal(Seq::filter);
    if s.len() > 0 {
        let front = s.drop_last();
        assert forall|i: int| 0 <= i < front.len() implies is_address_char(#[trigger] front[i]) by {
            assert(front[i] == s[i]);
        }
        lemma_without_brackets(front);
        assert(is_address_char(s[s.len() - 1]));
        assert(front.push(s.last()) =~= s);
    }
}

proof fn lemma_in_brackets(s: Seq<char>)
    requires
        is_plain(s),
    ensures
        without_brackets("["@ + s + "]"@) == s,
{
    reveal_strlit("[");
    reveal_strlit("]");
    reveal_with_fuel(Seq::filter, 2);
    let keep = |c: char| c != '[' && c != ']';
    let open = "["@;
    let close = "]"@;
    lemma_without_brackets(s);
    Seq::filter_distributes_over_add(open + s, close, keep);
    Seq::filter_distributes_over_add(open, s, keep);
    assert(open.drop_last() =~= Seq::empty());
    assert(close.drop_last() =~= Seq::empty());
    assert(open.filter(keep) =~= Seq::empty());
    assert(close.filter(keep) =~= Seq::empty());
    assert(Seq::<char>::empty() + s + Seq::<char>::empty() =~= s);
}

/// Each text writes the address at its place.
spec fn write_addresses(texts: Seq<Seq<char>>, ips: Seq<IpAddr>) -> bool {
    &&& texts.len() == ips.len()
    &&& forall|i: int|
        0 <= i < texts.len() ==> without_brackets(trimmed(#[trigger] texts[i])) == ip_text(ips[i])
}

proof fn lemma_listed(texts: Seq<Seq<char>>, ips: Seq<IpAddr>)
    requires
        write_addresses(texts, ips),
    ensures
        listed_addresses(texts) == Some(ips),
    decreases texts.len(),
{
    if texts.len() > 0 {
        let n = texts.len() - 1;
        let front = texts.drop_last();
        assert forall|i: int| 0 <= i < front.len() implies without_brackets(
            trimmed(#[trigger] front[i]),
        ) == ip_text(ips.drop_last()[i]) by {
            assert(front[i] == texts[i]);
        }
        lemma_listed(front, ips.drop_last());
        assert(without_brackets(trimmed(texts[n])) == ip_text(ips[n]));
        lemma_plain_ip(ips[n]);
        addresses_are_read_back(ips[n]);
        assert(ips.drop_last().push(ips.last()) =~= ips);
    } else {
        assert(ips =~= Seq::empty());
    }
}

/// The characters that a list of addresses starts and ends with.
spec fn is_edge_char(c: char) -> bool {
    is_address_char(c) || c == '[' || c == ']'
}

proof fn lemma_no_service(s: Seq<char>, test_build: bool)
    requires
        s.len() > 0,
        is_edge_char(s[0]),
    ensures
        service_named(s, test_build) is None,
{
    reveal_strlit("ssh-tarpit");
    reveal_strlit("load-balancer");
    reveal_strlit("gatekeeper-auth");
    reveal_strlit("test-service");
    assert("ssh-tarpit"@[0] == 's');
    assert("load-balancer"@[0] == 'l');
    assert("gatekeeper-auth"@[0] == 'g');
    assert("test-service"@[0] == 't');
}

proof fn lemma_port(port: u16)
    ensures
        trimmed(number_text(port as nat, 10)) == number_text(port as nat, 10),
        bounded_value(number_text(port as nat, 10), u16::MAX as nat) == Some(port as nat),
        forall|i: int|
            0 <= i < number_text(port as nat, 10).len() ==> number_text(port as nat, 10)[i] != ':',
{
    let p = number_text(port as nat, 10);
    numbers_are_read_back(port as nat, 10);
    assert(is_written_digit(p[0], 10));
    assert(is_written_digit(p[p.len() - 1], 10));
    lemma_trimmed(p);
}

/// Addresses with a port after them.
proof fn lemma_with_port(list: Seq<char>, port: u16, ips: Seq<IpAddr>, test_build: bool)
    requires
        list.len() > 0,
        is_edge_char(list[0]),
        is_edge_char(list.last()),
        listed_addresses(pieces(list, ',')) == Some(ips),
    ensures
        destination_value(list + ":"@ + number_text(port as nat, 10), test_build) == Ok::<
            DestinationView,
            DestinationError,
        >(destination_at(port, ips)),
{
    reveal_strlit(":");
    let p = number_text(port as nat, 10);
    let s = list + ":"@ + p;
    lemma_port(port);
    assert(s[0] == list[0]);
    lemma_no_service(s, test_build);
    let n = list.len() as int;
    assert(s[n] == ':');
    assert forall|j: int| n < j < s.len() implies s[j] != ':' by {
        assert(s[j] == p[j - n - 1]);
    }
    lemma_last_index_is(s, ':', n);
    assert(s.take(n) =~= list);
    assert(s.skip(n + 1) =~= p);
    lemma_trimmed(list);
}

/// A port by itself is read as a destination that only gives the port.
pub proof fn ports_are_destinations(port: u16, test_build: bool)
    ensures
        destination_value(number_text(port as nat, 10), test_build) == Ok::<
            DestinationView,
            DestinationError,
        >(DestinationView::PortOnly(port)),
{
    let p = number_text(port as nat, 10);
    lemma_port(port);
    numbers_are_read_back(port as nat, 10);
    assert(is_written_digit(p[0], 10));
    lemma_no_service(p, test_build);
    lemma_last_index_is(p, ':', -1);
    let none = Seq::<char>::empty();
    lemma_one_piece(none, ',');
    assert(seq![none].drop_last() =~= Seq::empty());
    assert(listed_addresses(Seq::empty()) == Some(Seq::<IpAddr>::empty()));
    assert(trimmed(none) =~= none);
    assert(without_brackets(none) =~= none) by {
        reveal(Seq::filter);
    }
    assert(listed_addresses(seq![none]) == Some(Seq::<IpAddr>::empty()));
}

/// The name of a service that is known is read as that service.
pub proof fn services_are_destinations(service: InternalService, test_build: bool)
    requires
        service.is_known(test_build),
    ensures
        destination_value(service.slug(), test_build) == Ok::<DestinationView, DestinationError>(
            DestinationView::InternalService(service),
        ),
{
    service_names_round_trip(service, service.slug(), test_build);
}

/// One address, in brackets or not, with a port after it.
proof fn lemma_one_address(list: Seq<char>, socket: SocketAddr, test_build: bool)
    requires
        list.len() > 0,
        forall|i: int| 0 <= i < list.len() ==> is_edge_char(#[trigger] list[i]),
        without_brackets(list) == ip_text(socket.ip),
    ensures
        destination_value(list + ":"@ + number_text(socket.port as nat, 10), test_build) == Ok::<
            DestinationView,
            DestinationError,
        >(DestinationView::Socket(socket)),
{
    assert(is_edge_char(list[0]));
    assert(is_edge_char(list[list.len() - 1]));
    assert forall|i: int| 0 <= i < list.len() implies list[i] != ',' by {
        assert(is_edge_char(list[i]));
    }
    lemma_one_piece(list, ',');
    lemma_trimmed(list);
    lemma_listed(seq![list], seq![socket.ip]);
    lemma_with_port(list, socket.port, seq![socket.ip], test_build);
}

/// A socket is read as it is written.
pub proof fn sockets_are_destinations(socket: SocketAddr, test_build: bool)
    ensures
        destination_value(socket_text(socket), test_build) == Ok::<
            DestinationView,
            DestinationError,
        >(DestinationView::Socket(socket)),
{
    let t = ip_text(socket.ip);
    let p = number_text(socket.port as nat, 10);
    lemma_plain_ip(socket.ip);
    match socket.ip {
        IpAddr::V4(_) => {
            lemma_without_brackets(t);
            assert forall|i: int| 0 <= i < t.len() implies is_edge_char(#[trigger] t[i]) by {
                assert(is_address_char(t[i]));
            }
            lemma_one_address(t, socket, test_build);
        },
        IpAddr::V6(_) => {
            let list = "["@ + t + "]"@;
            lemma_in_brackets(t);
            lemma_bracketed_socket(t, p);
            lemma_one_address(list, socket, test_build);
        },
    }
}

proof fn lemma_bracketed_socket(t: Seq<char>, p: Seq<char>)
    requires
        is_plain(t),
    ensures
        "["@ + t + "]:"@ + p == ("["@ + t + "]"@) + ":"@ + p,
        forall|i: int|
            0 <= i < t.len() + 2 ==> is_edge_char(#[trigger] ("["@ + t + "]"@)[i]),
        ("["@ + t + "]"@).len() == t.len() + 2,
{
    reveal_strlit("[");
    reveal_strlit("]");
    reveal_strlit(":");
    reveal_strlit("]:");
    let list = "["@ + t + "]"@;
    assert("["@ + t + "]:"@ + p =~= list + ":"@ + p);
    assert forall|i: int| 0 <= i < t.len() + 2 implies is_edge_char(#[trigger] list[i]) by {
        if 0 < i <= t.len() {
            assert(list[i] == t[i - 1]);
        }
    }
}

/// Addresses with commas between them.
pub open spec fn address_list(ips: Seq<IpAddr>) -> Seq<char>
    decreases ips.len(),
{
    if ips.len() == 0 {
        Seq::empty()
    } else if ips.len() == 1 {
        ip_text(ips[0])
    } else {
        address_list(ips.drop_last()) + ","@ + ip_text(ips.last())
    }
}

proof fn lemma_address_list(ips: Seq<IpAddr>)
    requires
        ips.len() > 0,
    ensures
        address_list(ips).len() > 0,
        is_edge_char(address_list(ips)[0]),
        is_edge_char(address_list(ips).last()),
        pieces(address_list(ips), ',') == ips.map_values(|ip: IpAddr| ip_text(ip)),
    decreases ips.len(),
{
    reveal_strlit(",");
    let s = address_list(ips);
    let last = ip_text(ips.last());
    lemma_plain_ip(ips.last());
    assert(is_address_char(last[0]));
    assert(is_address_char(last[last.len() - 1]));
    assert forall|i: int| 0 <= i < last.len() implies last[i] != ',' by {
        assert(is_address_char(last[i]));
    }
    if ips.len() == 1 {
        lemma_one_piece(s, ',');
        assert(ips.map_values(|ip: IpAddr| ip_text(ip)) =~= seq![s]);
    } else {
        let front = address_list(ips.drop_last());
        lemma_address_list(ips.drop_last());
        assert(","@ =~= seq![',']);
        lemma_last_piece(front, last, ',');
        assert(s == front + ","@ + last);
        assert(s[0] == front[0]);
        assert(s.last() == last.last());
        assert(ips.map_values(|ip: IpAddr| ip_text(ip)) =~= ips.drop_last().map_values(
            |ip: IpAddr| ip_text(ip),
        ).push(last));
    }
}

/// A list of addresses with a port after it is read as that port on those machines, and as a socket
/// where the list has one address.
pub proof fn address_lists_are_destinations(ips: Seq<IpAddr>, port: u16, test_build: bool)
    requires
        ips.len() > 0,
    ensures
        destination_value(
            address_list(ips) + ":"@ + number_text(port as nat, 10),
            test_build,
        ) == Ok::<
            DestinationView,
            DestinationError,
        >(
            if ips.len() == 1 {
                DestinationView::Socket(SocketAddr { ip: ips[0], port })
            } else {
                DestinationView::PortAndAddrs(port, ips)
            },
        ),
{
    let texts = ips.map_values(|ip: IpAddr| ip_text(ip));
    lemma_address_list(ips);
    assert forall|i: int| 0 <= i < texts.len() implies without_brackets(
        trimmed(#[trigger] texts[i]),
    ) == ip_text(ips[i]) by {
        let t = ip_text(ips[i]);
        lemma_plain_ip(ips[i]);
        assert(is_address_char(t[0]));
        assert(is_address_char(t[t.len() - 1]));
        lemma_trimmed(t);
        lemma_without_brackets(t);
    }
    lemma_listed(texts, ips);
    lemma_with_port(address_list(ips), port, ips, test_build);
}

/// Two destinations with a bar between them are read as the one for accepted connections and the
/// one for refused ones.
pub proof fn both_destinations_are_read(
    accept: Seq<char>,
    refuse: Seq<char>,
    destination: DestinationView,
    else_destination: DestinationView,
    test_build: bool,
)
    requires
        forall|i: int| 0 <= i < accept.len() ==> accept[i] != '|',
        destination_value(accept, test_build) == Ok::<DestinationView, DestinationError>(
            destination,
        ),
        destination_value(refuse, test_build) == Ok::<DestinationView, DestinationError>(
            else_destination,
        ),
    ensures
        possible_destinations_value(accept + "|"@ + refuse, test_build) == Ok::<
            PossibleDestinationsView,
            DestinationError,
        >(PossibleDestinationsView { destination, else_destination: Some(else_destination) }),
{
    reveal_strlit("|");
    let s = accept + "|"@ + refuse;
    let n = accept.len() as int;
    assert(s[n] == '|');
    assert forall|j: int| 0 <= j < n implies s[j] != '|' by {
        assert(s[j] == accept[j]);
    }
    lemma_first_index_is(s, '|', n);
    assert(s.take(n) =~= accept);
    assert(s.skip(n + 1) =~= refuse);
}

} // verus!
