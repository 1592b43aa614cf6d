//! How addresses of version 6 and lists of addresses are written.

use vstd::prelude::*;
use crate::addr::display::{
    comma_text, groups_text, ip_string, ip_text, ipv4_string, ipv6_string, list_string, list_text,
    longest_run, number_string, number_text, segments, socket_string, socket_text, zero_run,
};
use crate::addr::{ip_value, ipv4_value, join_groups, parse_ip, parse_ipv4, IpAddr, SocketAddr};
use crate::laws::addr::{base_65536, lemma_join};

verus! {

/// Groups are written in hexadecimal, with a colon between each and the next.
pub proof fn groups_are_written_between_colons(g: Seq<nat>, n: nat)
    ensures
        groups_text(Seq::empty()) == Seq::<char>::empty(),
        groups_text(seq![n]) == number_text(n, 16),
        g.len() > 0 ==> groups_text(g.push(n)) == groups_text(g) + ":"@ + number_text(n, 16),
{
    assert(g.push(n).drop_last() =~= g);
}

/// There are so many zeros from the place on.
pub open spec fn zeros(g: Seq<nat>, i: int, n: int) -> bool {
    &&& 0 <= i && i + n <= g.len()
    &&& forall|k: int| i <= k < i + n ==> g[k] == 0
}

/// Eight groups of sixteen bits.
pub open spec fn are_eight_groups(g: Seq<nat>) -> bool {
    g.len() == 8 && forall|i: int| 0 <= i < 8 ==> #[trigger] g[i] < 65536
}

/// The groups are those of an address of version 4: five zeros and then all ones.
pub open spec fn are_mapped(g: Seq<nat>) -> bool {
    zeros(g, 0, 5) && g[5] == 65535
}

proof fn lemma_segments(g: Seq<nat>)
    requires
        are_eight_groups(g),
    ensures
        segments(base_65536(g)) == g,
        base_65536(g) <= u128::MAX,
        base_65536(g) / 0x100000000 == 0xffff <==> are_mapped(g),
        base_65536(g) % 0x100000000 == g[6] * 65536 + g[7],
{
    lemma_join(g);
    let (a, b, c, d) = (g[0], g[1], g[2], g[3]);
    let (e, f, h, i) = (g[4], g[5], g[6], g[7]);
    assert(a < 65536 && b < 65536 && c < 65536 && d < 65536);
    assert(e < 65536 && f < 65536 && h < 65536 && i < 65536);
    let n = base_65536(g);
    assert(n == ((((((a * 65536 + b) * 65536 + c) * 65536 + d) * 65536 + e) * 65536 + f) * 65536
        + h) * 65536 + i);
    let n1 = (((((a * 65536 + b) * 65536 + c) * 65536 + d) * 65536 + e) * 65536 + f) * 65536 + h;
    let n2 = ((((a * 65536 + b) * 65536 + c) * 65536 + d) * 65536 + e) * 65536 + f;
    let n3 = (((a * 65536 + b) * 65536 + c) * 65536 + d) * 65536 + e;
    let n4 = ((a * 65536 + b) * 65536 + c) * 65536 + d;
    let n5 = (a * 65536 + b) * 65536 + c;
    let n6 = a * 65536 + b;
    assert(n % 65536 == i && n / 65536 == n1);
    assert(n1 % 65536 == h && n / 0x10000 == n1);
    assert(n / 0x100000000 == n2 && n2 % 65536 == f);
    assert(n / 0x1000000000000 == n3 && n3 % 65536 == e);
    assert(n / 0x10000000000000000 == n4 && n4 % 65536 == d);
    assert(n / 0x100000000000000000000 == n5 && n5 % 65536 == c);
    assert(n / 0x1000000000000000000000000 == n6 && n6 % 65536 == b);
    assert(n / 0x10000000000000000000000000000 == a && a % 65536 == a);
    assert(segments(n) =~= g);
    if are_mapped(g) {
        assert(a == 0 && b == 0 && c == 0 && d == 0 && e == 0);
    }
    if n2 == 0xffff {
        assert(n3 == 0);
        assert(a == 0 && b == 0 && c == 0 && d == 0 && e == 0);
    }
}

proof fn lemma_zero_run(g: Seq<nat>, i: int)
    requires
        0 <= i <= g.len(),
    ensures
        zeros(g, i, zero_run(g, i) as int),
        i + zero_run(g, i) < g.len() ==> g[i + zero_run(g, i)] != 0,
    decreases g.len() - i,
{
    if i < g.len() && g[i] == 0 {
        lemma_zero_run(g, i + 1);
    }
}

proof fn lemma_longest_run(g: Seq<nat>, i: int)
    requires
        0 <= i <= g.len(),
    ensures
        i <= longest_run(g, i) <= g.len(),
        forall|j: int|
            i <= j < g.len() ==> #[trigger] zero_run(g, j) <= zero_run(g, longest_run(g, i)),
        forall|j: int|
            i <= j < longest_run(g, i) ==> #[trigger] zero_run(g, j) < zero_run(
                g,
                longest_run(g, i),
            ),
    decreases g.len() - i,
{
    if i < g.len() {
        lemma_longest_run(g, i + 1);
    }
}

/// An address of version 6 that stands for one of version 4 ends like that one.
pub proof fn mapped_addresses_end_like_version_four(g: Seq<nat>)
    requires
        are_eight_groups(g),
        are_mapped(g),
    ensures
        ip_text(IpAddr::V6(base_65536(g) as u128)) == "::ffff:"@ + ip_text(
            IpAddr::V4((g[6] * 65536 + g[7]) as u32),
        ),
{
    lemma_segments(g);
}

/// An address without two zeros in a row is written group by group.
pub proof fn addresses_are_written_group_by_group(g: Seq<nat>)
    requires
        are_eight_groups(g),
        forall|i: int| 0 <= i < 7 ==> !(#[trigger] g[i] == 0 && g[i + 1] == 0),
    ensures
        ip_text(IpAddr::V6(base_65536(g) as u128)) == groups_text(g),
{
    lemma_segments(g);
    let start = longest_run(g, 0);
    lemma_longest_run(g, 0);
    lemma_zero_run(g, start);
    if zero_run(g, start) > 1 {
        assert(g[start] == 0 && g[start + 1] == 0);
    }
    assert(!(g[0] == 0 && g[1] == 0));
}

/// Of any other address the longest run of zeros is left out, the first one where there are several
/// of the same length. A double colon stands in its place, and no shorter run is left out.
pub proof fn the_longest_run_of_zeros_is_left_out(g: Seq<nat>, start: int, n: int)
    requires
        are_eight_groups(g),
        !are_mapped(g),
        n >= 2,
        zeros(g, start, n),
        forall|j: int, m: int| m > n ==> !#[trigger] zeros(g, j, m),
        forall|j: int| 0 <= j < start ==> !#[trigger] zeros(g, j, n),
    ensures
        ip_text(IpAddr::V6(base_65536(g) as u128)) == groups_text(g.take(start)) + "::"@
            + groups_text(g.skip(start + n)),
{
    lemma_segments(g);
    let found = longest_run(g, 0);
    let run = zero_run(g, found) as int;
    lemma_longest_run(g, 0);
    lemma_zero_run(g, found);
    lemma_zero_run(g, start);
    let here = zero_run(g, start) as int;
    if here < n {
        assert(g[start + here] != 0);
    }
    assert(zeros(g, start, here));
    assert(here == n);
    assert(zero_run(g, start) <= zero_run(g, found));
    assert(zeros(g, found, run));
    assert(run == n);
    if found < start {
        assert(zeros(g, found, n));
    }
    if start < found {
        assert(zero_run(g, start) < zero_run(g, found));
    }
}

/// A list of addresses stands in brackets, with a comma and a space between each and the next.
pub proof fn lists_are_written_in_brackets(ips: Seq<IpAddr>, ip: IpAddr)
    ensures
        list_text(ips) == "["@ + comma_text(ips) + "]"@,
        comma_text(Seq::empty()) == Seq::<char>::empty(),
        comma_text(seq![ip]) == ip_text(ip),
        ips.len() > 0 ==> comma_text(ips.push(ip)) == comma_text(ips) + ", "@ + ip_text(ip),
{
    assert(ips.push(ip).drop_last() =~= ips);
}

/// What is written is that, and what is read is what the text writes.
pub proof fn addresses_are_written_and_read(
    n: u32,
    radix: u32,
    number: String,
    bits: u32,
    four: String,
    long_bits: u128,
    six: String,
    ip: IpAddr,
    text: String,
    socket: SocketAddr,
    with_port: String,
    ips: &Vec<IpAddr>,
    list: String,
    s: &str,
    read: Option<IpAddr>,
    read_four: Option<u32>,
)
    requires
        call_ensures(number_string, (n, radix), number),
        call_ensures(ipv4_string, (bits,), four),
        call_ensures(ipv6_string, (long_bits,), six),
        call_ensures(ip_string, (ip,), text),
        call_ensures(socket_string, (socket,), with_port),
        call_ensures(list_string, (ips,), list),
        call_ensures(parse_ip, (s,), read),
        call_ensures(parse_ipv4, (s,), read_four),
    ensures
        number@ == number_text(n as nat, radix as nat),
        four@ == ip_text(IpAddr::V4(bits)),
        six@ == ip_text(IpAddr::V6(long_bits)),
        text@ == ip_text(ip),
        with_port@ == socket_text(socket),
        list@ == list_text(ips@),
        read == ip_value(s@),
        read_four is Some <==> ipv4_value(s@) is Some,
        read_four matches Some(v) ==> read == Some(IpAddr::V4(v)),
{
    crate::laws::addr::dotted_texts_are_version_four(s@);
}

/// The order of addresses is told right, and a socket has the address and the port that it is
/// given.
pub proof fn addresses_are_compared(
    a: IpAddr,
    b: IpAddr,
    before: bool,
    port: u16,
    socket: SocketAddr,
)
    requires
        call_ensures(IpAddr::is_before, (a, b), before),
        call_ensures(SocketAddr::new, (a, port), socket),
    ensures
        before <==> match (a, b) {
            (IpAddr::V4(x), IpAddr::V4(y)) => x < y,
            (IpAddr::V6(x), IpAddr::V6(y)) => x < y,
            (IpAddr::V4(_), IpAddr::V6(_)) => true,
            (IpAddr::V6(_), IpAddr::V4(_)) => false,
        },
        socket.ip == a,
        socket.port == port,
{
}

} // verus!
