//! Which machines a connection is tried on, and in which order.

use vstd::prelude::*;
use crate::addr::{IpAddr, SocketAddr};
use crate::connection::{ConnectionInner, Destination};
use crate::laws::text::{case_of_ascii_letters, lacks, other_case, parted_at_the_first};
use crate::services::load_balancer::{
    all_machines_are_candidates, attempt_order, backend_sockets, can_pick, can_route, candidates,
    candidates_are_allowed, comparable, connectable, every_machine_is_tried_once, has_machine,
    joined, load_order, machines_for, pick_best_ip, protocol_value, provided_view, route,
    service_value, tried_before, AttemptStep, Attempts, ConnectOutcome, DestinationMachine,
    LoadBalancer, LoadBalancerConfig, LoadBalancerService, LoadBalancerServiceError, MachineTable,
    PortProtocol, Route, UnknownProtocol, CONNECT_TIMEOUT_SECS,
};
use crate::text::{same_ignoring_case, unsigned_value};

verus! {

/// Every address comes before those that follow it.
pub open spec fn in_order(entries: Seq<(IpAddr, DestinationMachine)>) -> bool {
    forall|i: int, j: int|
        #![trigger entries[i], entries[j]]
        0 <= i < j < entries.len() ==> entries[i].0.precedes(entries[j].0)
}

/// The machine is in the table and, where there is a list of addresses, its address is on it.
pub open spec fn usable(
    entries: Seq<(IpAddr, DestinationMachine)>,
    provided: Option<&Vec<IpAddr>>,
    entry: (IpAddr, DestinationMachine),
) -> bool {
    &&& entries.contains(entry)
    &&& provided matches Some(ips) ==> ips@.contains(entry.0)
}

/// The connections of a machine times its weight.
pub open spec fn work(machine: DestinationMachine) -> int {
    (machine.tracked_connections + machine.active_connections_by_peers) * machine.weight
}

/// The first machine has less to do than the second. One that cannot be reached counts as having as
/// much to do as a number can say.
pub open spec fn has_less_to_do(a: DestinationMachine, b: DestinationMachine) -> bool {
    let left = if a.reachable { work(a) } else { usize::MAX as int };
    let right = if b.reachable { work(b) } else { usize::MAX as int };
    left < right
}

/// The work of a machine that can be reached is a number of machine size, and so is the number of
/// its connections.
pub open spec fn work_fits(machine: DestinationMachine) -> bool {
    machine.reachable ==> machine.tracked_connections + machine.active_connections_by_peers
        <= usize::MAX && work(machine) <= usize::MAX
}

/// The machines that may be used are those of the table, and where a list of addresses is given,
/// those of the table whose address is on it.
pub proof fn a_list_allows_those_on_it(
    entries: Seq<(IpAddr, DestinationMachine)>,
    ips: Seq<IpAddr>,
    entry: (IpAddr, DestinationMachine),
)
    requires
        in_order(entries),
    ensures
        candidates(entries, Some(ips)).contains(entry) <==> entries.contains(entry) && ips.contains(
            entry.0,
        ),
        candidates(entries, None).contains(entry) <==> entries.contains(entry),
        in_order(candidates(entries, Some(ips))),
        candidates(entries, None) == entries,
{
    candidates_are_allowed(entries, Some(ips), entry);
    candidates_are_allowed(entries, None, entry);
    all_machines_are_candidates(entries);
}

proof fn lemma_candidates(
    entries: Seq<(IpAddr, DestinationMachine)>,
    provided: Option<&Vec<IpAddr>>,
)
    requires
        in_order(entries),
    ensures
        forall|e: (IpAddr, DestinationMachine)| #[trigger]
            candidates(entries, provided_view(provided)).contains(e) <==> usable(
                entries,
                provided,
                e,
            ),
        in_order(candidates(entries, provided_view(provided))),
{
    let some = (IpAddr::V4(0), DestinationMachine::fresh(0));
    assert forall|e: (IpAddr, DestinationMachine)| #[trigger]
        candidates(entries, provided_view(provided)).contains(e) <==> usable(
            entries,
            provided,
            e,
        ) by {
        match provided {
            Some(ips) => {
                a_list_allows_those_on_it(entries, ips@, e);
            },
            None => {
                a_list_allows_those_on_it(entries, Seq::empty(), e);
            },
        }
    }
    match provided {
        Some(ips) => {
            a_list_allows_those_on_it(entries, ips@, some);
        },
        None => {
            a_list_allows_those_on_it(entries, Seq::empty(), some);
        },
    }
}

/// The machines that are picked are those that may be used, each once. One with less to do comes
/// before one with more, and of two with the same the one with the smaller address comes first.
pub proof fn the_least_loaded_machine_is_picked_first(
    provided: Option<&Vec<IpAddr>>,
    machines: &MachineTable,
    r: Vec<(IpAddr, DestinationMachine)>,
    entry: (IpAddr, DestinationMachine),
    i: int,
    j: int,
)
    requires
        in_order(machines@),
        call_ensures(pick_best_ip, (provided, machines), r),
    ensures
        r@.contains(entry) <==> usable(machines@, provided, entry),
        0 <= i < j < r@.len() ==> {
            &&& r@[i].0 != r@[j].0
            &&& !has_less_to_do(r@[j].1, r@[i].1)
            &&& has_less_to_do(r@[i].1, r@[j].1) || r@[i].0.precedes(r@[j].0)
        },
        provided is None ==> r@.len() == machines@.len(),
{
    broadcast use vstd::seq_lib::group_to_multiset_ensures;

    let c = candidates(machines@, provided_view(provided));
    lemma_candidates(machines@, provided);
    assert(c.to_multiset() == r@.to_multiset());
    assert(c.to_multiset().count(entry) == r@.to_multiset().count(entry));
    assert(c.contains(entry) <==> c.to_multiset().count(entry) > 0);
    assert(r@.contains(entry) <==> r@.to_multiset().count(entry) > 0);
    if provided is None {
        all_machines_are_candidates(machines@);
        assert(r@.len() == r@.to_multiset().len());
        assert(c.len() == c.to_multiset().len());
    }
    if 0 <= i < j < r@.len() {
        assert(tried_before(r@[i], r@[j]));
        if r@[i].0 == r@[j].0 {
            assert(r@.contains(r@[i]) && r@.contains(r@[j]));
            assert(c.to_multiset().count(r@[i]) > 0);
            assert(c.to_multiset().count(r@[j]) > 0);
            assert(c.contains(r@[i]) && c.contains(r@[j]));
            let a = choose|a: int| 0 <= a < c.len() && c[a] == r@[i];
            let b = choose|b: int| 0 <= b < c.len() && c[b] == r@[j];
            if a < b {
                assert(c[a].0.precedes(c[b].0));
            } else if b < a {
                assert(c[b].0.precedes(c[a].0));
            }
        }
    }
}

proof fn lemma_comparable(
    entries: Seq<(IpAddr, DestinationMachine)>,
    c: Seq<(IpAddr, DestinationMachine)>,
    provided: Option<&Vec<IpAddr>>,
)
    requires
        in_order(c),
        forall|e: (IpAddr, DestinationMachine)| #[trigger]
            c.contains(e) <==> usable(entries, provided, e),
    ensures
        comparable(c) <==> {
            ||| forall|a: (IpAddr, DestinationMachine), b: (IpAddr, DestinationMachine)|
                usable(entries, provided, a) && usable(entries, provided, b) ==> a == b
            ||| forall|a: (IpAddr, DestinationMachine)|
                usable(entries, provided, a) ==> work_fits(a.1)
        },
{
    assert forall|i: int| 0 <= i < c.len() implies usable(entries, provided, #[trigger] c[i]) by {
        assert(c.contains(c[i]));
    }
    if c.len() > 1 {
        assert(c[0].0.precedes(c[1].0));
        assert(c[0] != c[1]);
        assert(usable(entries, provided, c[0]) && usable(entries, provided, c[1]));
        if comparable(c) {
            assert forall|a: (IpAddr, DestinationMachine)| usable(
                entries,
                provided,
                a,
            ) implies work_fits(a.1) by {
                assert(c.contains(a));
                let k = choose|k: int| 0 <= k < c.len() && c[k] == a;
                assert(c[k].1.has_load());
            }
        }
        if forall|a: (IpAddr, DestinationMachine)|
            usable(entries, provided, a) ==> work_fits(a.1) {
            assert forall|i: int| 0 <= i < c.len() implies (#[trigger] c[i]).1.has_load() by {
                assert(usable(entries, provided, c[i]));
            }
        }
    } else {
        assert forall|a: (IpAddr, DestinationMachine), b: (IpAddr, DestinationMachine)|
            usable(entries, provided, a) && usable(entries, provided, b) implies a == b by {
            assert(c.contains(a) && c.contains(b));
        }
    }
}

/// Machines can be brought into order where there is no more than one that may be used, or where
/// what each of them has to do is a number of machine size.
pub proof fn loads_have_to_be_numbers(
    provided: Option<&Vec<IpAddr>>,
    machines: &MachineTable,
    r: bool,
)
    requires
        in_order(machines@),
        call_ensures(can_pick, (provided, machines), r),
    ensures
        r <==> {
            ||| forall|a: (IpAddr, DestinationMachine), b: (IpAddr, DestinationMachine)|
                usable(machines@, provided, a) && usable(machines@, provided, b) ==> a == b
            ||| forall|a: (IpAddr, DestinationMachine)|
                usable(machines@, provided, a) ==> work_fits(a.1)
        },
{
    lemma_candidates(machines@, provided);
    lemma_comparable(machines@, candidates(machines@, provided_view(provided)), provided);
}

/// A connection can be routed where the machines for its destination can be brought into order: all
/// of them for a port, the listed ones for a port with addresses. Other destinations need no order.
pub proof fn destinations_need_an_order(
    destination: &Destination,
    machines: &MachineTable,
    r: bool,
    picks: bool,
    picks_listed: bool,
)
    requires
        in_order(machines@),
        call_ensures(can_route, (destination, machines), r),
        call_ensures(can_pick, (None::<&Vec<IpAddr>>, machines), picks),
        *destination matches Destination::PortAndAddrs(_, addrs) ==> call_ensures(
            can_pick,
            (Some(&*addrs), machines),
            picks_listed,
        ),
    ensures
        match *destination {
            Destination::PortOnly(_) => r == picks,
            Destination::PortAndAddrs(_, _) => r == picks_listed,
            _ => r,
        },
{
    all_machines_are_candidates(machines@);
}

/// A connection to a port is tried on every machine, one to a port with addresses on the machines
/// that are listed, each machine once and at that port. A socket is tried where its machine is in
/// the table, and a service is not served here.
pub proof fn connections_are_tried_on_their_machines(
    destination: &Destination,
    machines: &MachineTable,
    ip: IpAddr,
    r: Route,
)
    requires
        in_order(machines@),
        call_ensures(route, (destination, machines), r),
    ensures
        match *destination {
            Destination::PortOnly(port) => {
                &&& r is Attempt
                &&& r->Attempt_0@.len() == machines@.len()
                &&& r->Attempt_0@.no_duplicates()
                &&& r->Attempt_0@.contains(SocketAddr { ip, port }) <==> exists|i: int|
                    0 <= i < machines@.len() && #[trigger] machines@[i].0 == ip
                &&& forall|i: int|
                    0 <= i < r->Attempt_0@.len() ==> (#[trigger] r->Attempt_0@[i]).port == port
            },
            Destination::PortAndAddrs(port, addrs) => {
                &&& r is Attempt
                &&& r->Attempt_0@.no_duplicates()
                &&& r->Attempt_0@.contains(SocketAddr { ip, port }) <==> {
                    &&& addrs@.contains(ip)
                    &&& exists|i: int| 0 <= i < machines@.len() && #[trigger] machines@[i].0 == ip
                }
                &&& forall|i: int|
                    0 <= i < r->Attempt_0@.len() ==> (#[trigger] r->Attempt_0@[i]).port == port
            },
            Destination::Socket(socket) => {
                &&& (exists|i: int|
                    0 <= i < machines@.len() && #[trigger] machines@[i].0 == socket.ip) ==> r
                    == Route::Only(socket)
                &&& !(exists|i: int|
                    0 <= i < machines@.len() && #[trigger] machines@[i].0 == socket.ip) ==> r
                    == Route::UnknownMachine(socket)
            },
            Destination::InternalService(_) => r is NotServed,
        },
{
    let c = machines_for(destination@, machines@);
    match *destination {
        Destination::PortOnly(port) => {
            every_machine_is_tried_once(c, port, r->Attempt_0@, ip);
            lemma_ports(c, port, r->Attempt_0@);
            assert(has_machine(machines@, ip) <==> exists|i: int|
                0 <= i < machines@.len() && #[trigger] machines@[i].0 == ip);
        },
        Destination::PortAndAddrs(port, addrs) => {
            let all = machines@;
            lemma_candidates(all, Some(&*addrs));
            every_machine_is_tried_once(c, port, r->Attempt_0@, ip);
            lemma_ports(c, port, r->Attempt_0@);
            if has_machine(c, ip) {
                let k = choose|k: int| 0 <= k < c.len() && #[trigger] c[k].0 == ip;
                assert(c.contains(c[k]));
                assert(usable(all, Some(&*addrs), c[k]));
                let i = choose|i: int| 0 <= i < all.len() && all[i] == c[k];
                assert(all[i].0 == ip);
            }
            if addrs@.contains(ip) && has_machine(all, ip) {
                let i = choose|i: int| 0 <= i < all.len() && #[trigger] all[i].0 == ip;
                assert(all.contains(all[i]));
                assert(usable(all, Some(&*addrs), all[i]));
                assert(c.contains(all[i]));
                let k = choose|k: int| 0 <= k < c.len() && c[k] == all[i];
                assert(c[k].0 == ip);
            }
        },
        _ => {},
    }
}

proof fn lemma_ports(
    entries: Seq<(IpAddr, DestinationMachine)>,
    port: u16,
    sockets: Seq<SocketAddr>,
)
    requires
        attempt_order(entries, port, sockets),
    ensures
        forall|i: int| 0 <= i < sockets.len() ==> (#[trigger] sockets[i]).port == port,
{
    let sorted = choose|sorted: Seq<(IpAddr, DestinationMachine)>| #[trigger]
        load_order(entries, sorted) && sockets == backend_sockets(sorted, port);
}

/// Of two machines that a connection is tried on, the one that is tried later has at least as much
/// to do.
pub proof fn machines_are_tried_by_their_load(
    destination: &Destination,
    machines: &MachineTable,
    r: Route,
    i: int,
    j: int,
)
    requires
        call_ensures(route, (destination, machines), r),
        destination@ is PortOnly || destination@ is PortAndAddrs,
        0 <= i < j < r->Attempt_0@.len(),
    ensures
        exists|a: (IpAddr, DestinationMachine), b: (IpAddr, DestinationMachine)|
            {
                &&& #[trigger] machines_for(destination@, machines@).contains(a)
                &&& #[trigger] machines_for(destination@, machines@).contains(b)
                &&& a.0 == r->Attempt_0@[i].ip
                &&& b.0 == r->Attempt_0@[j].ip
                &&& !has_less_to_do(b.1, a.1)
                &&& has_less_to_do(a.1, b.1) || a.0.precedes(b.0)
            },
{
    broadcast use vstd::seq_lib::group_to_multiset_ensures;

    let c = machines_for(destination@, machines@);
    let sockets = r->Attempt_0@;
    let sorted = choose|sorted: Seq<(IpAddr, DestinationMachine)>| #[trigger]
        load_order(c, sorted) && exists|p: u16| sockets == #[trigger] backend_sockets(sorted, p);
    assert(load_order(c, sorted));
    assert(tried_before(sorted[i], sorted[j]));
    assert(sorted.contains(sorted[i]) && sorted.contains(sorted[j]));
    assert(sorted.to_multiset().count(sorted[i]) > 0);
    assert(sorted.to_multiset().count(sorted[j]) > 0);
    assert(c.contains(sorted[i]) && c.contains(sorted[j]));
}

/// The machines for a port are all machines; those for a port with addresses are the ones whose
/// address is listed.
pub proof fn machines_belong_to_destinations(
    destination: Destination,
    entries: Seq<(IpAddr, DestinationMachine)>,
    entry: (IpAddr, DestinationMachine),
)
    requires
        in_order(entries),
    ensures
        machines_for(destination@, entries).contains(entry) <==> match destination {
            Destination::PortOnly(_) => entries.contains(entry),
            Destination::PortAndAddrs(_, addrs) => entries.contains(entry) && addrs@.contains(
                entry.0,
            ),
            _ => false,
        },
{
    if let Destination::PortAndAddrs(_, addrs) = destination {
        a_list_allows_those_on_it(entries, addrs@, entry);
    }
}

/// What a machine has to do: the number of its connections, of this proxy and of the others, times
/// its weight. A machine that cannot be reached has as much to do as a number can say.
pub proof fn loads_are_weighed(
    machine: &DestinationMachine,
    available: bool,
    checked: Option<usize>,
    load: usize,
)
    requires
        call_ensures(DestinationMachine::available, (machine,), available),
        call_ensures(DestinationMachine::checked_load, (machine,), checked),
        call_ensures(DestinationMachine::weighted_load, (machine,), load),
    ensures
        available == machine.reachable,
        machine.reachable ==> load == work(*machine),
        !machine.reachable ==> load == usize::MAX,
        checked is Some <==> work_fits(*machine),
        checked matches Some(n) ==> n == load,
{
}

/// A machine starts without connections, and has not been reached.
pub proof fn machines_start_idle(weight: usize, machine: DestinationMachine)
    requires
        call_ensures(DestinationMachine::new, (weight,), machine),
    ensures
        machine.tracked_connections == 0,
        machine.active_connections_by_peers == 0,
        !machine.reachable,
        machine.weight == weight,
{
}

/// A connection of another proxy is counted and discounted by one, the count wraps round, and
/// nothing else changes.
pub proof fn peers_are_counted(
    before: DestinationMachine,
    added: DestinationMachine,
    taken: DestinationMachine,
)
    requires
        exists|m: &mut DestinationMachine|
            *m == before && *final(m) == added && #[trigger] call_ensures(
                DestinationMachine::add_conn,
                (m,),
                (),
            ),
        exists|m: &mut DestinationMachine|
            *m == before && *final(m) == taken && #[trigger] call_ensures(
                DestinationMachine::sub_conn,
                (m,),
                (),
            ),
    ensures
        before.active_connections_by_peers < usize::MAX ==> added.active_connections_by_peers
            == before.active_connections_by_peers + 1,
        before.active_connections_by_peers == usize::MAX ==> added.active_connections_by_peers == 0,
        before.active_connections_by_peers > 0 ==> taken.active_connections_by_peers
            == before.active_connections_by_peers - 1,
        before.active_connections_by_peers == 0 ==> taken.active_connections_by_peers
            == usize::MAX,
        added.tracked_connections == before.tracked_connections,
        added.reachable == before.reachable,
        added.weight == before.weight,
        taken.tracked_connections == before.tracked_connections,
        taken.reachable == before.reachable,
        taken.weight == before.weight,
{
}

/// A table has one machine for every address that is given, in the order of the addresses. Every
/// machine starts idle, with the weight one.
pub proof fn tables_have_a_machine_for_every_address(
    addresses: &Vec<IpAddr>,
    table: MachineTable,
    ip: IpAddr,
    i: int,
    n: usize,
)
    requires
        call_ensures(MachineTable::new, (addresses,), table),
        call_ensures(MachineTable::len, (&table,), n),
    ensures
        n == table@.len(),
        in_order(table@),
        addresses@.contains(ip) <==> exists|k: int| 0 <= k < table@.len() && #[trigger] table@[k].0
            == ip,
        0 <= i < table@.len() ==> {
            &&& addresses@.contains(table@[i].0)
            &&& table@[i].1.tracked_connections == 0
            &&& table@[i].1.active_connections_by_peers == 0
            &&& !table@[i].1.reachable
            &&& table@[i].1.weight == 1
        },
{
    assert(has_machine(table@, ip) <==> exists|k: int|
        0 <= k < table@.len() && #[trigger] table@[k].0 == ip);
    if 0 <= i < table@.len() {
        assert(has_machine(table@, table@[i].0));
    }
}

/// A machine is found by its address, and only its own state changes.
pub proof fn machines_are_found_by_their_address(
    table: MachineTable,
    ip: IpAddr,
    found: Option<usize>,
    i: usize,
    entry: (IpAddr, DestinationMachine),
    machine: DestinationMachine,
    after: MachineTable,
    k: int,
)
    requires
        i < table@.len(),
        call_ensures(MachineTable::position, (&table, ip), found),
        call_ensures(MachineTable::entry, (&table, i), entry),
        exists|t: &mut MachineTable|
            *t == table && *final(t) == after && #[trigger] call_ensures(
                MachineTable::update,
                (t, i, machine),
                (),
            ),
    ensures
        found matches Some(p) ==> p < table@.len() && table@[p as int].0 == ip,
        found is None <==> forall|p: int| 0 <= p < table@.len() ==> (#[trigger] table@[p]).0 != ip,
        entry == table@[i as int],
        after@.len() == table@.len(),
        after@[i as int] == (entry.0, machine),
        0 <= k < table@.len() && k != i ==> after@[k] == table@[k],
{
    assert(has_machine(table@, ip) <==> exists|p: int|
        0 <= p < table@.len() && #[trigger] table@[p].0 == ip);
}

/// The sockets are tried one after the other from the first, until one is connected or none is
/// left.
pub proof fn attempts_come_in_turn(
    before: Attempts,
    first: AttemptStep,
    tried: Attempts,
    connected: bool,
    then: AttemptStep,
    after: Attempts,
)
    requires
        exists|a: &mut Attempts|
            *a == before && *final(a) == tried && #[trigger] call_ensures(
                Attempts::next,
                (a,),
                first,
            ),
        exists|a: &mut Attempts|
            *a == before && *final(a) == after && #[trigger] call_ensures(
                Attempts::after,
                (a, connected),
                then,
            ),
    ensures
        before@.len() == 0 ==> first == AttemptStep::Exhausted && tried@.len() == 0,
        before@.len() > 0 ==> first == AttemptStep::Connect(before@[0]) && before@ == seq![
            before@[0],
        ] + tried@,
        connected ==> then == AttemptStep::Connected && after@ == before@,
        !connected && before@.len() == 0 ==> then == AttemptStep::Exhausted && after@.len() == 0,
        !connected && before@.len() > 0 ==> then == AttemptStep::Connect(before@[0]) && before@
            == seq![before@[0]] + after@,
{
    if before@.len() > 0 {
        assert(before@ =~= seq![before@[0]] + before@.drop_first());
    }
}

/// A connection over TCP is joined with a machine that has answered. Where none has, in whatever
/// way, the client's side comes back. A connection over QUIC comes back at once.
pub proof fn streams_are_joined_or_come_back<T, D>(
    inner: ConnectionInner<T>,
    taken: Result<T, ConnectionInner<T>>,
    stream: T,
    dest: D,
    answered: Result<(T, D), ConnectionInner<T>>,
    failed: Result<(T, D), ConnectionInner<T>>,
    late: Result<(T, D), ConnectionInner<T>>,
)
    requires
        call_ensures(connectable::<T>, (inner,), taken),
        call_ensures(joined::<T, D>, (stream, ConnectOutcome::Connected(dest)), answered),
        call_ensures(joined::<T, D>, (stream, ConnectOutcome::<D>::Failed), failed),
        call_ensures(joined::<T, D>, (stream, ConnectOutcome::<D>::TimedOut), late),
    ensures
        inner matches ConnectionInner::Tcp(s) ==> taken == Ok::<T, ConnectionInner<T>>(s),
        inner is Quic ==> taken == Err::<T, ConnectionInner<T>>(inner),
        answered == Ok::<(T, D), ConnectionInner<T>>((stream, dest)),
        failed == Err::<(T, D), ConnectionInner<T>>(ConnectionInner::Tcp(stream)),
        late == Err::<(T, D), ConnectionInner<T>>(ConnectionInner::Tcp(stream)),
        CONNECT_TIMEOUT_SECS == 5,
{
}

/// The two protocols are known by their names, each letter small or capital, and there is no other.
pub proof fn protocols_have_these_names(s: Seq<char>)
    ensures
        protocol_value(s) == Some(PortProtocol::Tcp) <==> {
            &&& s.len() == 3
            &&& s[0] == 't' || s[0] == 'T'
            &&& s[1] == 'c' || s[1] == 'C'
            &&& s[2] == 'p' || s[2] == 'P'
        },
        protocol_value(s) == Some(PortProtocol::Quic) <==> {
            &&& s.len() == 4
            &&& s[0] == 'q' || s[0] == 'Q'
            &&& s[1] == 'u' || s[1] == 'U'
            &&& s[2] == 'i' || s[2] == 'I'
            &&& s[3] == 'c' || s[3] == 'C'
        },
{
    reveal_strlit("tcp");
    reveal_strlit("quic");
    let tcp = "tcp"@;
    let quic = "quic"@;
    assert(tcp.len() == 3 && tcp[0] == 't' && tcp[1] == 'c' && tcp[2] == 'p');
    assert(quic.len() == 4 && quic[0] == 'q' && quic[1] == 'u' && quic[2] == 'i' && quic[3] == 'c');
    case_of_ascii_letters(s, tcp);
    case_of_ascii_letters(s, quic);
    if same_ignoring_case(s, tcp) {
        assert(s[0] == tcp[0] || other_case(s[0], tcp[0]));
        assert(s[1] == tcp[1] || other_case(s[1], tcp[1]));
        assert(s[2] == tcp[2] || other_case(s[2], tcp[2]));
    }
    if same_ignoring_case(s, quic) {
        assert(s[0] == quic[0] || other_case(s[0], quic[0]));
        assert(s[1] == quic[1] || other_case(s[1], quic[1]));
        assert(s[2] == quic[2] || other_case(s[2], quic[2]));
        assert(s[3] == quic[3] || other_case(s[3], quic[3]));
    }
}

/// A port and its protocol are written with a slash between them. A text without a slash, what is
/// not a port before the first one, and what is not a protocol behind it are told apart, in this
/// order.
pub proof fn ports_have_a_protocol(port: Seq<char>, protocol: Seq<char>)
    requires
        lacks(port, '/'),
    ensures
        service_value(port) == Err::<LoadBalancerService, LoadBalancerServiceError>(
            LoadBalancerServiceError::Split,
        ),
        service_value(port + seq!['/'] + protocol) == match unsigned_value(port) {
            Some(n) => if n > 65535 {
                Err(LoadBalancerServiceError::Port)
            } else {
                match protocol_value(protocol) {
                    Some(p) => Ok(LoadBalancerService { port: n as u16, port_protocol: p }),
                    None => Err(LoadBalancerServiceError::Protocol),
                }
            },
            None => Err(LoadBalancerServiceError::Port),
        },
{
    parted_at_the_first(port, '/', protocol);
}

/// What is read is what the text writes.
pub proof fn ports_and_protocols_are_read(
    s: &str,
    protocol: Result<PortProtocol, UnknownProtocol>,
    service: Result<LoadBalancerService, LoadBalancerServiceError>,
)
    requires
        call_ensures(PortProtocol::from_str, (s,), protocol),
        call_ensures(LoadBalancerService::from_str, (s,), service),
    ensures
        protocol is Err <==> protocol_value(s@) is None,
        protocol matches Ok(p) ==> protocol_value(s@) == Some(p),
        service == service_value(s@),
{
}

/// The load balancer has a machine for every address of its configuration, and what it was given.
pub proof fn the_load_balancer_serves_its_addresses<R, T>(
    config: LoadBalancerConfig,
    receiver: R,
    tracker: T,
    r: LoadBalancer<R, T>,
    ip: IpAddr,
    i: int,
)
    requires
        call_ensures(LoadBalancer::<R, T>::new, (config, receiver, tracker), r),
    ensures
        r.conn_receiver == receiver,
        r.conn_tracker == tracker,
        in_order(r.machines@),
        config.addresses@.contains(ip) <==> exists|k: int|
            0 <= k < r.machines@.len() && #[trigger] r.machines@[k].0 == ip,
        0 <= i < r.machines@.len() ==> {
            &&& r.machines@[i].1.tracked_connections == 0
            &&& r.machines@[i].1.active_connections_by_peers == 0
            &&& !r.machines@[i].1.reachable
            &&& r.machines@[i].1.weight == 1
        },
{
    assert(has_machine(r.machines@, ip) <==> exists|k: int|
        0 <= k < r.machines@.len() && #[trigger] r.machines@[k].0 == ip);
}

} // verus!
