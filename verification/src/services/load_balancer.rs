//! The service that spreads connections over machines.

use vstd::prelude::*;
use crate::addr::{IpAddr, SocketAddr};
use crate::connection::{ConnectionInner, Destination, DestinationView};
use crate::text::{
    bounded_value, eq_ignore_ascii_case, parse_u16, same_ignoring_case, split_at_first, split_once,
};

verus! {

/// What the load balancer is made from.
pub struct LoadBalancerConfig {
    pub addresses: Vec<IpAddr>,
}

/// What is known of a machine behind the proxy.
#[derive(Clone, Copy, Debug, PartialEq, Eq, Structural)]
pub struct DestinationMachine {
    /// The connections that this proxy keeps to the machine.
    pub tracked_connections: usize,
    /// The connections that other proxies keep to it.
    pub active_connections_by_peers: usize,
    pub reachable: bool,
    pub weight: usize,
}

impl DestinationMachine {
    /// A machine without connections that has not been reached yet.
    pub open spec fn fresh(weight: usize) -> DestinationMachine {
        DestinationMachine {
            tracked_connections: 0,
            active_connections_by_peers: 0,
            reachable: false,
            weight,
        }
    }

    /// All its connections times its weight. A machine that cannot be reached has the largest load
    /// there is.
    pub open spec fn load(self) -> int {
        if self.reachable {
            (self.tracked_connections + self.active_connections_by_peers) * self.weight
        } else {
            usize::MAX as int
        }
    }

    /// Whether the load is a number of machine size, and its sum too.
    pub open spec fn has_load(self) -> bool {
        self.reachable ==> {
            &&& self.tracked_connections + self.active_connections_by_peers <= usize::MAX
            &&& self.load() <= usize::MAX
        }
    }

    pub fn new(weight: usize) -> (r: Self)
        ensures
            r == Self::fresh(weight),
    {
        DestinationMachine {
            tracked_connections: 0,
            active_connections_by_peers: 0,
            reachable: false,
            weight,
        }
    }

    /// Whether the machine can be reached.
    pub fn available(&self) -> (r: bool)
        ensures
            r == self.reachable,
    {
        self.reachable
    }

    /// The load, where it is a number of machine size.
    pub fn checked_load(&self) -> (r: Option<usize>)
        ensures
            match r {
                Some(n) => self.has_load() && n == self.load(),
                None => !self.has_load(),
            },
    {
        if !self.available() {
            return Some(usize::MAX);
        }
        match self.tracked_connections.checked_add(self.active_connections_by_peers) {
            Some(sum) => sum.checked_mul(self.weight),
            None => None,
        }
    }

    /// The load.
    pub fn weighted_load(&self) -> (r: usize)
        requires
            self.has_load(),
        ensures
            r == self.load(),
    {
        if self.available() {
            (self.tracked_connections + self.active_connections_by_peers) * self.weight
        } else {
            usize::MAX
        }
    }

    /// The machine with one more connection of another proxy. The count wraps round.
    pub open spec fn with_conn(self) -> DestinationMachine {
        DestinationMachine {
            active_connections_by_peers: if self.active_connections_by_peers == usize::MAX {
                0
            } else {
                (self.active_connections_by_peers + 1) as usize
            },
            ..self
        }
    }

    /// The machine with one connection of another proxy less. The count wraps round.
    pub open spec fn without_conn(self) -> DestinationMachine {
        DestinationMachine {
            active_connections_by_peers: if self.active_connections_by_peers == 0 {
                usize::MAX
            } else {
                (self.active_connections_by_peers - 1) as usize
            },
            ..self
        }
    }

    /// Counts a connection of another proxy.
    pub fn add_conn(&mut self)
        ensures
            *final(self) == old(self).with_conn(),
    {
        self.active_connections_by_peers = self.active_connections_by_peers.wrapping_add(1);
    }

    /// Discounts a connection of another proxy.
    pub fn sub_conn(&mut self)
        ensures
            *final(self) == old(self).without_conn(),
    {
        self.active_connections_by_peers = self.active_connections_by_peers.wrapping_sub(1);
    }
}

/// Counting a connection and discounting it leaves the machine as it was, in either order.
pub proof fn counting_is_undone(machine: DestinationMachine)
    ensures
        machine.with_conn().without_conn() == machine,
        machine.without_conn().with_conn() == machine,
{
}

/// A connection that is counted adds the weight to the load of a machine that can be reached.
pub proof fn connections_add_their_weight(machine: DestinationMachine)
    requires
        machine.reachable,
        machine.active_connections_by_peers < usize::MAX,
    ensures
        machine.with_conn().load() == machine.load() + machine.weight,
{
    let n = machine.tracked_connections + machine.active_connections_by_peers;
    let w = machine.weight as int;
    assert((n + 1) * w == n * w + w) by (nonlinear_arith);
}

/// Every address comes before those that follow it. So no machine is listed twice.
pub open spec fn ascending(entries: Seq<(IpAddr, DestinationMachine)>) -> bool {
    forall|i: int, j: int|
        #![trigger entries[i], entries[j]]
        0 <= i < j < entries.len() ==> entries[i].0.precedes(entries[j].0)
}

/// The machine with the given address is listed.
pub open spec fn has_machine(entries: Seq<(IpAddr, DestinationMachine)>, ip: IpAddr) -> bool {
    exists|i: int| 0 <= i < entries.len() && #[trigger] entries[i].0 == ip
}

/// The machines behind the proxy, in the order of their addresses.
pub struct MachineTable {
    entries: Vec<(IpAddr, DestinationMachine)>,
}

impl View for MachineTable {
    type V = Seq<(IpAddr, DestinationMachine)>;

    closed spec fn view(&self) -> Seq<(IpAddr, DestinationMachine)> {
        self.entries@
    }
}

impl MachineTable {
    #[verifier::type_invariant]
    spec fn in_order(self) -> bool {
        ascending(self.entries@)
    }

    /// A table with a fresh machine for every address, however often the address is given.
    pub fn new(addresses: &Vec<IpAddr>) -> (r: MachineTable)
        ensures
            ascending(r@),
            forall|ip: IpAddr| #[trigger] has_machine(r@, ip) <==> addresses@.contains(ip),
            forall|i: int|
                0 <= i < r@.len() ==> (#[trigger] r@[i]).1 == DestinationMachine::fresh(1),
    {
        let mut entries: Vec<(IpAddr, DestinationMachine)> = Vec::new();
        let mut k: usize = 0;
        while k < addresses.len()
            invariant
                k <= addresses.len(),
                ascending(entries@),
                forall|ip: IpAddr| #[trigger]
                    has_machine(entries@, ip) <==> addresses@.take(k as int).contains(ip),
                forall|i: int|
                    0 <= i < entries@.len() ==> (#[trigger] entries@[i]).1
                        == DestinationMachine::fresh(1),
            decreases addresses.len() - k,
        {
            let ip = addresses[k];
            let ghost before = entries@;
            let ghost seen = addresses@.take(k as int);
            let i = place_of(&entries, ip);
            if i < entries.len() && entries[i].0 == ip {
                entries.set(i, (ip, DestinationMachine::new(1)));
                assert(entries@ =~= before);
            } else {
                entries.insert(i, (ip, DestinationMachine::new(1)));
                proof {
                    lemma_inserted(before, i as int, (ip, DestinationMachine::fresh(1)));
                }
            }
            proof {
                assert(addresses@.take(k + 1) =~= seen.push(ip));
                assert forall|other: IpAddr| #[trigger]
                    has_machine(entries@, other) <==> seen.push(ip).contains(other) by {
                    assert(has_machine(entries@, other) <==> has_machine(before, other) || other
                        == ip);
                    if seen.contains(other) {
                        let j = choose|j: int| 0 <= j < seen.len() && seen[j] == other;
                        assert(seen.push(ip)[j] == other);
                    }
                    assert(seen.push(ip)[seen.len() as int] == ip);
                }
            }
            k += 1;
        }
        assert(addresses@.take(k as int) =~= addresses@);
        MachineTable { entries }
    }

    /// How many machines there are.
    pub fn len(&self) -> (n: usize)
        ensures
            n == self@.len(),
            ascending(self@),
    {
        proof {
            use_type_invariant(self);
        }
        self.entries.len()
    }

    /// An entry by its place.
    pub fn entry(&self, i: usize) -> (r: (IpAddr, DestinationMachine))
        requires
            i < self@.len(),
        ensures
            r == self@[i as int],
    {
        self.entries[i]
    }

    /// The place of a machine in the table.
    pub fn position(&self, ip: IpAddr) -> (r: Option<usize>)
        ensures
            match r {
                Some(i) => i < self@.len() && self@[i as int].0 == ip,
                None => !has_machine(self@, ip),
            },
    {
        proof {
            use_type_invariant(self);
        }
        let i = place_of(&self.entries, ip);
        if i < self.entries.len() && self.entries[i].0 == ip {
            Some(i)
        } else {
            assert forall|j: int| 0 <= j < self@.len() implies #[trigger] self@[j].0 != ip by {
                if j > i {
                    assert(self@[i as int].0.precedes(self@[j].0));
                }
            }
            None
        }
    }

    /// Puts another state of a machine in the place of the one that is there.
    pub fn update(&mut self, i: usize, machine: DestinationMachine)
        requires
            i < old(self)@.len(),
        ensures
            final(self)@ == old(self)@.update(i as int, (old(self)@[i as int].0, machine)),
    {
        proof {
            use_type_invariant(&*self);
        }
        let mut entries: Vec<(IpAddr, DestinationMachine)> = Vec::new();
        std::mem::swap(&mut entries, &mut self.entries);
        let ip = entries[i].0;
        entries.set(i, (ip, machine));
        self.entries = entries;
    }
}

proof fn lemma_inserted(
    entries: Seq<(IpAddr, DestinationMachine)>,
    i: int,
    entry: (IpAddr, DestinationMachine),
)
    requires
        0 <= i <= entries.len(),
        ascending(entries),
        forall|j: int| 0 <= j < i ==> (#[trigger] entries[j]).0.precedes(entry.0),
        forall|j: int| i <= j < entries.len() ==> entry.0.precedes((#[trigger] entries[j]).0),
    ensures
        ascending(entries.insert(i, entry)),
        forall|ip: IpAddr| #[trigger]
            has_machine(entries.insert(i, entry), ip) <==> has_machine(entries, ip) || ip
                == entry.0,
{
    let s = entries.insert(i, entry);
    assert forall|ip: IpAddr| #[trigger]
        has_machine(s, ip) <==> has_machine(entries, ip) || ip == entry.0 by {
        if has_machine(entries, ip) {
            let j = choose|j: int| 0 <= j < entries.len() && #[trigger] entries[j].0 == ip;
            if j < i {
                assert(s[j].0 == ip);
            } else {
                assert(s[j + 1].0 == ip);
            }
        }
        assert(s[i].0 == entry.0);
        if has_machine(s, ip) {
            let j = choose|j: int| 0 <= j < s.len() && #[trigger] s[j].0 == ip;
            if j < i {
                assert(entries[j].0 == ip);
            } else if j > i {
                assert(entries[j - 1].0 == ip);
            }
        }
    }
}

/// Where an address stands or would stand in a table.
fn place_of(entries: &Vec<(IpAddr, DestinationMachine)>, ip: IpAddr) -> (i: usize)
    requires
        ascending(entries@),
    ensures
        i <= entries.len(),
        forall|j: int| 0 <= j < i ==> (#[trigger] entries@[j]).0.precedes(ip),
        i < entries.len() ==> !entries@[i as int].0.precedes(ip),
        i < entries.len() && entries@[i as int].0 != ip ==> forall|j: int|
            i <= j < entries.len() ==> ip.precedes((#[trigger] entries@[j]).0),
{
    let mut i: usize = 0;
    while i < entries.len() && entries[i].0.is_before(ip)
        invariant
            i <= entries.len(),
            forall|j: int| 0 <= j < i ==> (#[trigger] entries@[j]).0.precedes(ip),
        decreases entries.len() - i,
    {
        i += 1;
    }
    proof {
        if i < entries.len() && entries@[i as int].0 != ip {
            assert forall|j: int| i <= j < entries.len() implies ip.precedes(
                (#[trigger] entries@[j]).0,
            ) by {
                if j > i {
                    assert(entries@[i as int].0.precedes(entries@[j].0));
                }
            }
        }
    }
    i
}

/// Whether a machine may be used. A list allows those on it; without a list all are allowed.
pub open spec fn allowed(provided: Option<Seq<IpAddr>>, ip: IpAddr) -> bool {
    match provided {
        Some(ips) => ips.contains(ip),
        None => true,
    }
}

/// The machines that may be used.
pub open spec fn candidates(
    entries: Seq<(IpAddr, DestinationMachine)>,
    provided: Option<Seq<IpAddr>>,
) -> Seq<(IpAddr, DestinationMachine)> {
    entries.filter(|e: (IpAddr, DestinationMachine)| allowed(provided, e.0))
}

/// The loads that have to be compared to bring machines into order are numbers of machine size.
pub open spec fn comparable(entries: Seq<(IpAddr, DestinationMachine)>) -> bool {
    entries.len() > 1 ==> forall|i: int|
        0 <= i < entries.len() ==> (#[trigger] entries[i]).1.has_load()
}

/// The first machine is to be tried before the second: it has the smaller load, or the same load
/// and the smaller address.
pub open spec fn tried_before(
    a: (IpAddr, DestinationMachine),
    b: (IpAddr, DestinationMachine),
) -> bool {
    a.1.load() < b.1.load() || a.1.load() == b.1.load() && a.0.precedes(b.0)
}

/// The second list holds the machines of the first one, every machine before those that are to be
/// tried after it.
pub open spec fn load_order(
    entries: Seq<(IpAddr, DestinationMachine)>,
    sorted: Seq<(IpAddr, DestinationMachine)>,
) -> bool {
    &&& sorted.to_multiset() == entries.to_multiset()
    &&& forall|i: int, j: int|
        #![trigger sorted[i], sorted[j]]
        0 <= i < j < sorted.len() ==> tried_before(sorted[i], sorted[j])
}

/// The addresses of a list as they are seen by contracts.
pub open spec fn provided_view(provided: Option<&Vec<IpAddr>>) -> Option<Seq<IpAddr>> {
    match provided {
        Some(ips) => Some(ips@),
        None => None,
    }
}

fn contains_ip(ips: &Vec<IpAddr>, ip: IpAddr) -> (r: bool)
    ensures
        r == ips@.contains(ip),
{
    let mut i: usize = 0;
    while i < ips.len()
        invariant
            i <= ips.len(),
            forall|j: int| 0 <= j < i ==> ips@[j] != ip,
        decreases ips.len() - i,
    {
        if ips[i] == ip {
            return true;
        }
        i += 1;
    }
    false
}

/// Picks the machines that may be used.
fn allowed_machines(provided: Option<&Vec<IpAddr>>, machines: &MachineTable) -> (r: Vec<
    (IpAddr, DestinationMachine),
>)
    ensures
        r@ == candidates(machines@, provided_view(provided)),
        ascending(r@),
{
    let ghost keep = |e: (IpAddr, DestinationMachine)| allowed(provided_view(provided), e.0);
    let mut list: Vec<(IpAddr, DestinationMachine)> = Vec::new();
    let n = machines.len();
    let mut i: usize = 0;
    proof {
        reveal(Seq::filter);
    }
    assert(machines@.take(0).filter(keep) =~= Seq::empty());
    while i < n
        invariant
            i <= n,
            n == machines@.len(),
            keep == |e: (IpAddr, DestinationMachine)| allowed(provided_view(provided), e.0),
            list@ == machines@.take(i as int).filter(keep),
            ascending(machines@),
            ascending(list@),
            i < n ==> forall|j: int|
                0 <= j < list.len() ==> (#[trigger] list@[j]).0.precedes(machines@[i as int].0),
        decreases n - i,
    {
        let entry = machines.entry(i);
        let keeps = match provided {
            Some(ips) => contains_ip(ips, entry.0),
            None => true,
        };
        let ghost before = list@;
        if keeps {
            list.push(entry);
        }
        proof {
            reveal(Seq::filter);
            assert(machines@.take(i + 1).drop_last() =~= machines@.take(i as int));
            assert(machines@.take(i + 1).last() == entry);
            assert(list@ == machines@.take(i + 1).filter(keep));
            if i + 1 < n {
                assert(entry.0.precedes(machines@[i + 1].0));
                assert forall|j: int| 0 <= j < list.len() implies (#[trigger] list@[j]).0.precedes(
                    machines@[i + 1].0,
                ) by {
                    if j < before.len() {
                        assert(list@[j] == before[j]);
                    }
                }
            }
        }
        i += 1;
    }
    assert(machines@.take(n as int) =~= machines@);
    list
}

/// Whether the machines that may be used can be brought into order.
pub fn can_pick(provided: Option<&Vec<IpAddr>>, machines: &MachineTable) -> (r: bool)
    ensures
        r == comparable(candidates(machines@, provided_view(provided))),
{
    let list = allowed_machines(provided, machines);
    if list.len() <= 1 {
        return true;
    }
    let mut i: usize = 0;
    while i < list.len()
        invariant
            i <= list.len(),
            list.len() > 1,
            list@ == candidates(machines@, provided_view(provided)),
            forall|j: int| 0 <= j < i ==> (#[trigger] list@[j]).1.has_load(),
        decreases list.len() - i,
    {
        if list[i].1.checked_load().is_none() {
            return false;
        }
        i += 1;
    }
    true
}

/// Lists the machines that may be used, the least loaded one first.
pub fn pick_best_ip(provided: Option<&Vec<IpAddr>>, machines: &MachineTable) -> (r: Vec<
    (IpAddr, DestinationMachine),
>)
    requires
        comparable(candidates(machines@, provided_view(provided))),
    ensures
        load_order(candidates(machines@, provided_view(provided)), r@),
{
    let list = allowed_machines(provided, machines);
    let mut sorted: Vec<(IpAddr, DestinationMachine)> = Vec::new();
    let mut i: usize = 0;
    assert(list@.take(0) =~= Seq::empty());
    while i < list.len()
        invariant
            i <= list.len(),
            sorted.len() == i,
            comparable(list@),
            ascending(list@),
            load_order(list@.take(i as int), sorted@),
        decreases list.len() - i,
    {
        let entry = list[i];
        let ghost before = sorted@;
        let ghost front = list@.take(i as int);
        proof {
            lemma_front_precedes(list@, i as int, before);
        }
        let mut place: usize = sorted.len();
        while place > 0 && entry.1.weighted_load() < sorted[place - 1].1.weighted_load()
            invariant
                i < list.len(),
                sorted@ == before,
                sorted.len() == i,
                place <= sorted.len(),
                comparable(list@),
                entry == list@[i as int],
                forall|j: int|
                    0 <= j < before.len() ==> (#[trigger] before[j]).1.has_load(),
                forall|j: int|
                    place <= j < before.len() ==> tried_before(entry, #[trigger] before[j]),
            decreases place,
        {
            place -= 1;
        }
        sorted.insert(place, entry);
        proof {
            assert(list@.take(i + 1) =~= front.push(entry));
            vstd::seq_lib::to_multiset_build(front, entry);
            vstd::seq_lib::to_multiset_insert(before, place as int, entry);
            assert forall|a: int, b: int|
                #![trigger sorted@[a], sorted@[b]]
                0 <= a < b < sorted@.len() implies tried_before(sorted@[a], sorted@[b]) by {
                let a0 = if a < place { a } else { a - 1 };
                let b0 = if b < place { b } else { b - 1 };
                if a == place {
                    assert(sorted@[b] == before[b0]);
                } else if b == place {
                    assert(sorted@[a] == before[a0]);
                    if a0 < place - 1 {
                        assert(tried_before(before[a0], before[place - 1]));
                    }
                    assert(before[a0].0.precedes(entry.0));
                } else {
                    assert(tried_before(before[a0], before[b0]));
                }
            }
        }
        i += 1;
    }
    assert(list@.take(i as int) =~= list@);
    sorted
}

/// What is sorted already comes before the next entry by its address.
proof fn lemma_front_precedes(
    list: Seq<(IpAddr, DestinationMachine)>,
    i: int,
    sorted: Seq<(IpAddr, DestinationMachine)>,
)
    requires
        0 <= i < list.len(),
        ascending(list),
        comparable(list),
        sorted.to_multiset() == list.take(i).to_multiset(),
    ensures
        sorted.len() == i,
        forall|j: int| 0 <= j < sorted.len() ==> (#[trigger] sorted[j]).0.precedes(list[i].0),
        forall|j: int| 0 <= j < sorted.len() ==> (#[trigger] sorted[j]).1.has_load(),
        i > 0 ==> list[i].1.has_load(),
{
    broadcast use vstd::seq_lib::group_to_multiset_ensures;

    let front = list.take(i);
    assert(sorted.len() == sorted.to_multiset().len());
    assert(front.len() == front.to_multiset().len());
    assert forall|j: int| 0 <= j < sorted.len() implies (#[trigger] sorted[j]).0.precedes(
        list[i].0,
    ) && sorted[j].1.has_load() by {
        assert(sorted.contains(sorted[j]));
        assert(sorted.to_multiset().count(sorted[j]) > 0);
        assert(front.contains(sorted[j]));
        let k = choose|k: int| 0 <= k < front.len() && front[k] == sorted[j];
        assert(list[k] == sorted[j]);
        assert(list[k].0.precedes(list[i].0));
    }
}

/// The sockets of machines at a port.
pub open spec fn backend_sockets(
    entries: Seq<(IpAddr, DestinationMachine)>,
    port: u16,
) -> Seq<SocketAddr> {
    entries.map_values(|e: (IpAddr, DestinationMachine)| SocketAddr { ip: e.0, port })
}

/// The sockets are those of the machines that may be used, in the order in which they are to be
/// tried.
pub open spec fn attempt_order(
    entries: Seq<(IpAddr, DestinationMachine)>,
    port: u16,
    sockets: Seq<SocketAddr>,
) -> bool {
    exists|sorted: Seq<(IpAddr, DestinationMachine)>| #[trigger]
        load_order(entries, sorted) && sockets == backend_sockets(sorted, port)
}

/// The machines that are still to be tried for a connection.
pub struct Attempts {
    port: u16,
    /// The next one stands last.
    backend_list: Vec<IpAddr>,
}

impl View for Attempts {
    type V = Seq<SocketAddr>;

    closed spec fn view(&self) -> Seq<SocketAddr> {
        self.backend_list@.reverse().map_values(
            |ip: IpAddr| SocketAddr { ip, port: self.port },
        )
    }
}

/// What to do next for a connection.
#[derive(Clone, Copy, Debug, PartialEq, Eq, Structural)]
pub enum AttemptStep {
    /// Connect to the socket.
    Connect(SocketAddr),
    /// The connection has been made.
    Connected,
    /// Every machine has been tried.
    Exhausted,
}

/// The next machine to try, and those that are left then.
pub open spec fn next_attempt(sockets: Seq<SocketAddr>) -> (AttemptStep, Seq<SocketAddr>) {
    if sockets.len() == 0 {
        (AttemptStep::Exhausted, sockets)
    } else {
        (AttemptStep::Connect(sockets[0]), sockets.drop_first())
    }
}

/// What follows an attempt.
pub open spec fn after_attempt(sockets: Seq<SocketAddr>, connected: bool) -> (
    AttemptStep,
    Seq<SocketAddr>,
) {
    if connected {
        (AttemptStep::Connected, sockets)
    } else {
        next_attempt(sockets)
    }
}

impl Attempts {
    fn over(sorted: &Vec<(IpAddr, DestinationMachine)>, port: u16) -> (r: Attempts)
        ensures
            r@ == backend_sockets(sorted@, port),
    {
        let mut backend_list: Vec<IpAddr> = Vec::new();
        let mut i: usize = sorted.len();
        while i > 0
            invariant
                i <= sorted.len(),
                backend_list.len() == sorted.len() - i,
                forall|j: int|
                    0 <= j < backend_list.len() ==> #[trigger] backend_list@[j]
                        == sorted@[sorted.len() - 1 - j].0,
            decreases i,
        {
            i -= 1;
            backend_list.push(sorted[i].0);
        }
        let attempts = Attempts { port, backend_list };
        assert(attempts@ =~= backend_sockets(sorted@, port));
        attempts
    }

    /// The first machine to try, or the next one.
    pub fn next(&mut self) -> (r: AttemptStep)
        ensures
            (r, final(self)@) == next_attempt(old(self)@),
    {
        let ghost before = self@;
        match self.backend_list.pop() {
            Some(ip) => {
                assert(self@ =~= before.drop_first());
                AttemptStep::Connect(SocketAddr::new(ip, self.port))
            },
            None => {
                assert(self@ =~= before);
                AttemptStep::Exhausted
            },
        }
    }

    /// Goes on after an attempt: where it failed, another machine is tried.
    pub fn after(&mut self, connected: bool) -> (r: AttemptStep)
        ensures
            (r, final(self)@) == after_attempt(old(self)@, connected),
    {
        if connected {
            AttemptStep::Connected
        } else {
            self.next()
        }
    }
}

/// Where a connection ends up that is attempted until a machine takes it.
pub open spec fn connected_to(
    step: AttemptStep,
    sockets: Seq<SocketAddr>,
    takes: spec_fn(SocketAddr) -> bool,
) -> Option<SocketAddr>
    decreases sockets.len(),
{
    match step {
        AttemptStep::Connect(socket) => if takes(socket) {
            Some(socket)
        } else if sockets.len() == 0 {
            None
        } else {
            let (s, rest) = after_attempt(sockets, false);
            connected_to(s, rest, takes)
        },
        _ => None,
    }
}

proof fn lemma_connected_to(sockets: Seq<SocketAddr>, takes: spec_fn(SocketAddr) -> bool)
    ensures
        match connected_to(next_attempt(sockets).0, next_attempt(sockets).1, takes) {
            Some(socket) => exists|i: int|
                #![trigger sockets[i]]
                0 <= i < sockets.len() && sockets[i] == socket && takes(socket) && forall|j: int|
                    0 <= j < i ==> !takes(#[trigger] sockets[j]),
            None => forall|j: int| 0 <= j < sockets.len() ==> !takes(#[trigger] sockets[j]),
        },
    decreases sockets.len(),
{
    if sockets.len() > 0 {
        let rest = sockets.drop_first();
        lemma_connected_to(rest, takes);
        if takes(sockets[0]) {
        } else if rest.len() == 0 {
        } else {
            match connected_to(next_attempt(rest).0, next_attempt(rest).1, takes) {
                Some(socket) => {
                    let i = choose|i: int|
                        #![trigger rest[i]]
                        0 <= i < rest.len() && rest[i] == socket && takes(socket) && forall|j: int|
                            0 <= j < i ==> !takes(#[trigger] rest[j]);
                    assert(sockets[i + 1] == socket);
                    assert forall|j: int| 0 <= j < i + 1 implies !takes(#[trigger] sockets[j]) by {
                        if j > 0 {
                            assert(sockets[j] == rest[j - 1]);
                        }
                    }
                },
                None => {
                    assert forall|j: int| 0 <= j < sockets.len() implies !takes(
                        #[trigger] sockets[j],
                    ) by {
                        if j > 0 {
                            assert(sockets[j] == rest[j - 1]);
                        }
                    }
                },
            }
        }
    }
}

/// A connection goes to a machine that may be used and takes it, and no machine that would have
/// taken it has a smaller load. It goes nowhere only where no machine takes it.
pub proof fn least_loaded_machine_is_used(
    entries: Seq<(IpAddr, DestinationMachine)>,
    port: u16,
    sockets: Seq<SocketAddr>,
    takes: spec_fn(SocketAddr) -> bool,
)
    requires
        attempt_order(entries, port, sockets),
    ensures
        match connected_to(next_attempt(sockets).0, next_attempt(sockets).1, takes) {
            Some(socket) => {
                &&& socket.port == port
                &&& takes(socket)
                &&& exists|e: (IpAddr, DestinationMachine)| #[trigger]
                    entries.contains(e) && e.0 == socket.ip && forall|other: (
                        IpAddr,
                        DestinationMachine,
                    )| #[trigger]
                        entries.contains(other) && takes(SocketAddr { ip: other.0, port })
                            ==> e.1.load() <= other.1.load()
            },
            None => forall|other: (IpAddr, DestinationMachine)| #[trigger]
                entries.contains(other) ==> !takes(SocketAddr { ip: other.0, port }),
        },
{
    broadcast use vstd::seq_lib::group_to_multiset_ensures;

    lemma_connected_to(sockets, takes);
    let sorted = choose|sorted: Seq<(IpAddr, DestinationMachine)>| #[trigger]
        load_order(entries, sorted) && sockets == backend_sockets(sorted, port);
    assert forall|e: (IpAddr, DestinationMachine)| #[trigger]
        entries.contains(e) == sorted.contains(e) by {
        assert(entries.to_multiset().count(e) == sorted.to_multiset().count(e));
    }
    match connected_to(next_attempt(sockets).0, next_attempt(sockets).1, takes) {
        Some(socket) => {
            let i = choose|i: int|
                #![trigger sockets[i]]
                0 <= i < sockets.len() && sockets[i] == socket && takes(socket) && forall|j: int|
                    0 <= j < i ==> !takes(#[trigger] sockets[j]);
            let e = sorted[i];
            assert(sorted.contains(e));
            assert(entries.contains(e));
            assert forall|other: (IpAddr, DestinationMachine)| #[trigger]
                entries.contains(other) && takes(
                    SocketAddr { ip: other.0, port },
                ) implies e.1.load() <= other.1.load() by {
                assert(sorted.contains(other));
                let k = choose|k: int| 0 <= k < sorted.len() && sorted[k] == other;
                assert(sockets[k] == (SocketAddr { ip: other.0, port }));
                if k > i {
                    assert(tried_before(sorted[i], sorted[k]));
                }
            }
        },
        None => {
            assert forall|other: (IpAddr, DestinationMachine)| #[trigger]
                entries.contains(other) implies !takes(SocketAddr { ip: other.0, port }) by {
                assert(sorted.contains(other));
                let k = choose|k: int| 0 <= k < sorted.len() && sorted[k] == other;
                assert(sockets[k] == (SocketAddr { ip: other.0, port }));
            }
        },
    }
}

/// Every machine that may be used is tried, and none is tried twice.
pub proof fn every_machine_is_tried_once(
    entries: Seq<(IpAddr, DestinationMachine)>,
    port: u16,
    sockets: Seq<SocketAddr>,
    ip: IpAddr,
)
    requires
        ascending(entries),
        attempt_order(entries, port, sockets),
    ensures
        sockets.len() == entries.len(),
        sockets.no_duplicates(),
        sockets.contains(SocketAddr { ip, port }) <==> has_machine(entries, ip),
{
    broadcast use vstd::seq_lib::group_to_multiset_ensures;

    let sorted = choose|sorted: Seq<(IpAddr, DestinationMachine)>| #[trigger]
        load_order(entries, sorted) && sockets == backend_sockets(sorted, port);
    assert(sorted.to_multiset().len() == entries.to_multiset().len());
    assert forall|e: (IpAddr, DestinationMachine)| #[trigger]
        entries.contains(e) == sorted.contains(e) by {
        assert(entries.to_multiset().count(e) == sorted.to_multiset().count(e));
    }
    assert forall|i: int, j: int| 0 <= i < j < sockets.len() implies sockets[i] != sockets[j] by {
        assert(tried_before(sorted[i], sorted[j]));
        assert(sorted.contains(sorted[i]) && sorted.contains(sorted[j]));
        assert(entries.contains(sorted[i]) && entries.contains(sorted[j]));
        let a = choose|a: int| 0 <= a < entries.len() && entries[a] == sorted[i];
        let b = choose|b: int| 0 <= b < entries.len() && entries[b] == sorted[j];
        if a < b {
            assert(entries[a].0.precedes(entries[b].0));
        } else if b < a {
            assert(entries[b].0.precedes(entries[a].0));
        }
    }
    let socket = SocketAddr { ip, port };
    if sockets.contains(socket) {
        let i = choose|i: int| 0 <= i < sockets.len() && sockets[i] == socket;
        assert(sorted.contains(sorted[i]));
        assert(entries.contains(sorted[i]));
        let a = choose|a: int| 0 <= a < entries.len() && entries[a] == sorted[i];
        assert(entries[a].0 == ip);
    }
    if has_machine(entries, ip) {
        let a = choose|a: int| 0 <= a < entries.len() && #[trigger] entries[a].0 == ip;
        assert(entries.contains(entries[a]));
        assert(sorted.contains(entries[a]));
        let i = choose|i: int| 0 <= i < sorted.len() && sorted[i] == entries[a];
        assert(sockets[i] == socket);
    }
}

/// The machines that may be used are those that are listed and, where there is a list of them,
/// stand on it. They stay in the order of their addresses.
pub proof fn candidates_are_allowed(
    entries: Seq<(IpAddr, DestinationMachine)>,
    provided: Option<Seq<IpAddr>>,
    entry: (IpAddr, DestinationMachine),
)
    requires
        ascending(entries),
    ensures
        candidates(entries, provided).contains(entry) <==> {
            &&& entries.contains(entry)
            &&& provided matches Some(ips) ==> ips.contains(entry.0)
        },
        ascending(candidates(entries, provided)),
    decreases entries.len(),
{
    reveal(Seq::filter);
    let c = candidates(entries, provided);
    if entries.len() > 0 {
        let front = entries.drop_last();
        let last = entries.last();
        let before = candidates(front, provided);
        candidates_are_allowed(front, provided, entry);
        assert(entries =~= front.push(last));
        assert(entries.contains(entry) <==> front.contains(entry) || entry == last) by {
            if front.contains(entry) {
                let i = choose|i: int| 0 <= i < front.len() && front[i] == entry;
                assert(entries[i] == entry);
            }
            assert(entries[entries.len() - 1] == last);
        }
        if allowed(provided, last.0) {
            assert(c =~= before.push(last));
            assert(c.contains(entry) <==> before.contains(entry) || entry == last) by {
                if before.contains(entry) {
                    let i = choose|i: int| 0 <= i < before.len() && before[i] == entry;
                    assert(c[i] == entry);
                }
                assert(c[c.len() - 1] == last);
            }
            assert forall|i: int, j: int|
                #![trigger c[i], c[j]]
                0 <= i < j < c.len() implies c[i].0.precedes(c[j].0) by {
                if j == before.len() {
                    candidates_are_allowed(front, provided, before[i]);
                    assert(before.contains(before[i]));
                    let k = choose|k: int| 0 <= k < front.len() && front[k] == before[i];
                    assert(entries[k].0.precedes(entries[entries.len() - 1].0));
                } else {
                    assert(before[i].0.precedes(before[j].0));
                }
            }
        } else {
            assert(c =~= before);
        }
    }
}

/// What is done for the destination of a connection.
pub enum Route {
    /// The machines are tried in turn.
    Attempt(Attempts),
    /// The socket is tried, and nothing else.
    Only(SocketAddr),
    /// The socket is on none of the machines.
    UnknownMachine(SocketAddr),
    /// The load balancer does not serve the destination.
    NotServed,
}

/// The machines that have to be brought into order for a destination.
pub open spec fn machines_for(
    destination: DestinationView,
    entries: Seq<(IpAddr, DestinationMachine)>,
) -> Seq<(IpAddr, DestinationMachine)> {
    match destination {
        DestinationView::PortOnly(_) => entries,
        DestinationView::PortAndAddrs(_, addrs) => candidates(entries, Some(addrs)),
        _ => Seq::empty(),
    }
}

/// Without a list every machine may be used.
pub proof fn all_machines_are_candidates(entries: Seq<(IpAddr, DestinationMachine)>)
    ensures
        candidates(entries, None) == entries,
    decreases entries.len(),
{
    reveal(Seq::filter);
    if entries.len() > 0 {
        all_machines_are_candidates(entries.drop_last());
        assert(entries =~= entries.drop_last().push(entries.last()));
    }
}

/// Whether a connection to the destination can be routed: the machines can be brought into order.
pub fn can_route(destination: &Destination, machines: &MachineTable) -> (r: bool)
    ensures
        r == comparable(machines_for(destination@, machines@)),
{
    match destination {
        Destination::PortOnly(_) => {
            proof {
                all_machines_are_candidates(machines@);
            }
            can_pick(None, machines)
        },
        Destination::PortAndAddrs(_, addrs) => can_pick(Some(&**addrs), machines),
        _ => true,
    }
}

/// Decides where a connection is to be tried.
pub fn route(destination: &Destination, machines: &MachineTable) -> (r: Route)
    requires
        comparable(machines_for(destination@, machines@)),
    ensures
        match destination@ {
            DestinationView::PortOnly(port) | DestinationView::PortAndAddrs(port, _) => {
                r matches Route::Attempt(attempts) && attempt_order(
                    machines_for(destination@, machines@),
                    port,
                    attempts@,
                )
            },
            DestinationView::Socket(socket) => {
                if has_machine(machines@, socket.ip) {
                    r == Route::Only(socket)
                } else {
                    r == Route::UnknownMachine(socket)
                }
            },
            DestinationView::InternalService(_) => r is NotServed,
        },
{
    match destination {
        Destination::PortOnly(port) => {
            proof {
                all_machines_are_candidates(machines@);
            }
            let sorted = pick_best_ip(None, machines);
            Route::Attempt(Attempts::over(&sorted, *port))
        },
        Destination::Socket(socket_addr) => {
            if machines.position(socket_addr.ip).is_some() {
                Route::Only(*socket_addr)
            } else {
                Route::UnknownMachine(*socket_addr)
            }
        },
        Destination::PortAndAddrs(port, addrs) => {
            let sorted = pick_best_ip(Some(&**addrs), machines);
            Route::Attempt(Attempts::over(&sorted, *port))
        },
        Destination::InternalService(_) => Route::NotServed,
    }
}

/// How many seconds a connection to a machine may take.
pub const CONNECT_TIMEOUT_SECS: u64 = 5;

/// What came of an attempt to connect to a machine.
pub enum ConnectOutcome<D> {
    Connected(D),
    Failed,
    TimedOut,
}

/// The client's side of a connection that can be connected to a machine. Only TCP can; what cannot
/// is given back.
pub fn connectable<T>(conn_inner: ConnectionInner<T>) -> (r: Result<T, ConnectionInner<T>>)
    ensures
        match conn_inner {
            ConnectionInner::Tcp(stream) => r == Ok::<T, ConnectionInner<T>>(stream),
            ConnectionInner::Quic => r == Err::<T, ConnectionInner<T>>(ConnectionInner::Quic),
        },
{
    match conn_inner {
        ConnectionInner::Tcp(remote_stream) => Ok(remote_stream),
        ConnectionInner::Quic => Err(ConnectionInner::Quic),
    }
}

/// The two sides of a connection once the machine has answered. Where it has not, the client's side
/// is given back, so that another machine can be tried.
pub fn joined<T, D>(remote_stream: T, outcome: ConnectOutcome<D>) -> (r: Result<
    (T, D),
    ConnectionInner<T>,
>)
    ensures
        match outcome {
            ConnectOutcome::Connected(dest_stream) => r == Ok::<(T, D), ConnectionInner<T>>(
                (remote_stream, dest_stream),
            ),
            _ => r == Err::<(T, D), ConnectionInner<T>>(ConnectionInner::Tcp(remote_stream)),
        },
{
    match outcome {
        ConnectOutcome::Connected(dest_stream) => Ok((remote_stream, dest_stream)),
        ConnectOutcome::Failed => Err(ConnectionInner::Tcp(remote_stream)),
        ConnectOutcome::TimedOut => Err(ConnectionInner::Tcp(remote_stream)),
    }
}

/// The protocol of a port.
#[derive(Clone, Copy, Debug, PartialEq, Eq, Structural, PartialOrd, Ord)]
pub enum PortProtocol {
    Tcp,
    Quic,
}

/// The text names no protocol.
#[derive(Clone, Copy, Debug, PartialEq, Eq, Structural)]
pub struct UnknownProtocol {}

/// The protocol that a text names, in capitals or not.
pub open spec fn protocol_value(s: Seq<char>) -> Option<PortProtocol> {
    if same_ignoring_case(s, "tcp"@) {
        Some(PortProtocol::Tcp)
    } else if same_ignoring_case(s, "quic"@) {
        Some(PortProtocol::Quic)
    } else {
        None
    }
}

impl PortProtocol {
    /// Reads the name of a protocol.
    pub fn from_str(s: &str) -> (r: Result<PortProtocol, UnknownProtocol>)
        ensures
            match r {
                Ok(protocol) => protocol_value(s@) == Some(protocol),
                Err(_) => protocol_value(s@) is None,
            },
    {
        if eq_ignore_ascii_case(s, "tcp") {
            Ok(PortProtocol::Tcp)
        } else if eq_ignore_ascii_case(s, "quic") {
            Ok(PortProtocol::Quic)
        } else {
            Err(UnknownProtocol {  })
        }
    }
}

/// A port with its protocol.
#[derive(Clone, Copy, Debug, PartialEq, Eq, Structural, PartialOrd, Ord)]
pub struct LoadBalancerService {
    pub port: u16,
    pub port_protocol: PortProtocol,
}

/// Why a text writes no port with its protocol.
#[derive(Clone, Copy, Debug, PartialEq, Eq, Structural)]
pub enum LoadBalancerServiceError {
    /// There is no slash.
    Split,
    /// What stands before the first slash is not a port.
    Port,
    /// What stands after it is not a protocol.
    Protocol,
}

/// The port and the protocol that a text writes with a slash between them.
pub open spec fn service_value(s: Seq<char>) -> Result<
    LoadBalancerService,
    LoadBalancerServiceError,
> {
    match split_at_first(s, '/') {
        None => Err(LoadBalancerServiceError::Split),
        Some((port, protocol)) => match (
            bounded_value(port, u16::MAX as nat),
            protocol_value(protocol),
        ) {
            (None, _) => Err(LoadBalancerServiceError::Port),
            (Some(_), None) => Err(LoadBalancerServiceError::Protocol),
            (Some(n), Some(port_protocol)) => Ok(
                LoadBalancerService { port: n as u16, port_protocol },
            ),
        },
    }
}

impl LoadBalancerService {
    /// Reads a port with its protocol.
    pub fn from_str(s: &str) -> (r: Result<LoadBalancerService, LoadBalancerServiceError>)
        ensures
            r == service_value(s@),
    {
        match split_once(s, '/') {
            None => Err(LoadBalancerServiceError::Split),
            Some((port_str, proto_str)) => match parse_u16(port_str) {
                None => Err(LoadBalancerServiceError::Port),
                Some(port) => match PortProtocol::from_str(proto_str) {
                    Err(_) => Err(LoadBalancerServiceError::Protocol),
                    Ok(port_protocol) => Ok(LoadBalancerService { port, port_protocol }),
                },
            },
        }
    }
}

/// Handles connections.
pub struct LoadBalancer<R, T> {
    pub conn_receiver: R,
    pub machines: MachineTable,
    pub conn_tracker: T,
}

impl<R, T> LoadBalancer<R, T> {
    pub fn new(config: LoadBalancerConfig, forward_receiver: R, conn_tracker: T) -> (r: Self)
        ensures
            r.conn_receiver == forward_receiver,
            r.conn_tracker == conn_tracker,
            ascending(r.machines@),
            forall|ip: IpAddr| #[trigger]
                has_machine(r.machines@, ip) <==> config.addresses@.contains(ip),
            forall|i: int|
                0 <= i < r.machines@.len() ==> (#[trigger] r.machines@[i]).1
                    == DestinationMachine::fresh(1),
    {
        LoadBalancer {
            conn_receiver: forward_receiver,
            machines: MachineTable::new(&config.addresses),
            conn_tracker,
        }
    }
}

} // verus!
