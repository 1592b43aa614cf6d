//! How addresses and numbers are written.

use vstd::prelude::*;
use vstd::string::*;
use crate::addr::{IpAddr, SocketAddr};

verus! {

/// The character for a digit.
pub open spec fn digit_char(d: nat) -> char {
    if d < 10 {
        ('0' as int + d) as char
    } else {
        ('a' as int + d - 10) as char
    }
}

/// A number in digits, the most significant one first and without leading zeros.
pub open spec fn number_text(n: nat, radix: nat) -> Seq<char>
    decreases n,
{
    if n < radix || radix < 2 {
        seq![digit_char(n)]
    } else {
        proof {
            vstd::arithmetic::div_mod::lemma_div_decreases(n as int, radix as int);
        }
        number_text(n / radix, radix).push(digit_char(n % radix))
    }
}

/// The four octets of a version 4 address.
pub open spec fn octets(bits: nat) -> Seq<nat> {
    seq![bits / 0x1000000 % 256, bits / 0x10000 % 256, bits / 0x100 % 256, bits % 256]
}

/// A version 4 address: its octets in decimal, with dots between them.
pub open spec fn ipv4_text(bits: nat) -> Seq<char> {
    let o = octets(bits);
    number_text(o[0], 10) + "."@ + number_text(o[1], 10) + "."@ + number_text(o[2], 10) + "."@
        + number_text(o[3], 10)
}

/// The eight groups of a version 6 address.
pub open spec fn segments(bits: nat) -> Seq<nat> {
    seq![
        bits / 0x10000000000000000000000000000 % 65536,
        bits / 0x1000000000000000000000000 % 65536,
        bits / 0x100000000000000000000 % 65536,
        bits / 0x10000000000000000 % 65536,
        bits / 0x1000000000000 % 65536,
        bits / 0x100000000 % 65536,
        bits / 0x10000 % 65536,
        bits % 65536,
    ]
}

/// How many zeros there are from `i` on.
pub open spec fn zero_run(groups: Seq<nat>, i: int) -> nat
    decreases groups.len() - i,
{
    if 0 <= i < groups.len() && groups[i] == 0 {
        zero_run(groups, i + 1) + 1
    } else {
        0
    }
}

/// Where the longest run of zeros from `i` on starts, the first one where there are several.
pub open spec fn longest_run(groups: Seq<nat>, i: int) -> int
    decreases groups.len() - i,
{
    if i < 0 || i >= groups.len() {
        i
    } else {
        let later = longest_run(groups, i + 1);
        if zero_run(groups, i) >= zero_run(groups, later) {
            i
        } else {
            later
        }
    }
}

/// Groups in hexadecimal, with colons between them.
pub open spec fn groups_text(groups: Seq<nat>) -> Seq<char>
    decreases groups.len(),
{
    if groups.len() == 0 {
        Seq::empty()
    } else if groups.len() == 1 {
        number_text(groups[0], 16)
    } else {
        groups_text(groups.drop_last()) + ":"@ + number_text(groups.last(), 16)
    }
}

/// A version 6 address. One that stands for a version 4 address ends like that address; else the
/// longest run of at least two zeros is left out.
pub open spec fn ipv6_text(bits: nat) -> Seq<char> {
    let g = segments(bits);
    let start = longest_run(g, 0);
    if bits / 0x100000000 == 0xffff {
        "::ffff:"@ + ipv4_text(bits % 0x100000000)
    } else if zero_run(g, start) > 1 {
        groups_text(g.take(start)) + "::"@ + groups_text(g.skip(start + zero_run(g, start)))
    } else {
        groups_text(g)
    }
}

/// An address.
pub open spec fn ip_text(ip: IpAddr) -> Seq<char> {
    match ip {
        IpAddr::V4(bits) => ipv4_text(bits as nat),
        IpAddr::V6(bits) => ipv6_text(bits as nat),
    }
}

/// An address and a port, with a colon between them. An address with colons of its own stands in
/// brackets.
pub open spec fn socket_text(socket: SocketAddr) -> Seq<char> {
    match socket.ip {
        IpAddr::V4(_) => ip_text(socket.ip) + ":"@ + number_text(socket.port as nat, 10),
        IpAddr::V6(_) => "["@ + ip_text(socket.ip) + "]:"@ + number_text(socket.port as nat, 10),
    }
}

/// Addresses with commas between them.
pub open spec fn comma_text(ips: Seq<IpAddr>) -> Seq<char>
    decreases ips.len(),
{
    if ips.len() == 0 {
        Seq::empty()
    } else if ips.len() == 1 {
        ip_text(ips[0])
    } else {
        comma_text(ips.drop_last()) + ", "@ + ip_text(ips.last())
    }
}

/// A list of addresses in brackets.
pub open spec fn list_text(ips: Seq<IpAddr>) -> Seq<char> {
    "["@ + comma_text(ips) + "]"@
}

/// Writes a number, in decimal or in hexadecimal for instance.
pub fn number_string(n: u32, radix: u32) -> (r: String)
    requires
        2 <= radix <= 16,
    ensures
        r@ == number_text(n as nat, radix as nat),
    decreases n,
{
    let digits = "0123456789abcdef";
    proof {
        reveal_strlit("0123456789abcdef");
    }
    let d: usize = (n % radix) as usize;
    let digit = digits.substring_char(d, d + 1);
    assert(digit@ =~= seq![digit_char(d as nat)]);
    if n < radix {
        assert(n % radix == n) by (nonlinear_arith)
            requires
                n < radix,
        ;
        digit.to_owned()
    } else {
        proof {
            vstd::arithmetic::div_mod::lemma_div_decreases(n as int, radix as int);
        }
        let mut s = number_string(n / radix, radix);
        let ghost front = s@;
        s.append(digit);
        assert(s@ =~= front.push(digit_char(d as nat)));
        s
    }
}

/// Writes a version 4 address.
pub fn ipv4_string(bits: u32) -> (r: String)
    ensures
        r@ == ipv4_text(bits as nat),
{
    let mut s = number_string(bits / 0x1000000 % 256, 10);
    s.append(".");
    s.append(number_string(bits / 0x10000 % 256, 10).as_str());
    s.append(".");
    s.append(number_string(bits / 0x100 % 256, 10).as_str());
    s.append(".");
    s.append(number_string(bits % 256, 10).as_str());
    s
}

/// Groups as numbers.
spec fn group_values(groups: Seq<u16>) -> Seq<nat> {
    groups.map_values(|g: u16| g as nat)
}

fn segments_of(bits: u128) -> (r: Vec<u16>)
    ensures
        group_values(r@) == segments(bits as nat),
{
    let mut r: Vec<u16> = Vec::new();
    r.push((bits / 0x10000000000000000000000000000 % 65536) as u16);
    r.push((bits / 0x1000000000000000000000000 % 65536) as u16);
    r.push((bits / 0x100000000000000000000 % 65536) as u16);
    r.push((bits / 0x10000000000000000 % 65536) as u16);
    r.push((bits / 0x1000000000000 % 65536) as u16);
    r.push((bits / 0x100000000 % 65536) as u16);
    r.push((bits / 0x10000 % 65536) as u16);
    r.push((bits % 65536) as u16);
    assert(group_values(r@) =~= segments(bits as nat));
    r
}

/// The longest run of zeros: where it starts and how long it is.
fn longest_run_of(groups: &Vec<u16>) -> (r: (usize, usize))
    ensures
        r.0 == longest_run(group_values(groups@), 0),
        r.1 == zero_run(group_values(groups@), r.0 as int),
        r.0 + r.1 <= groups.len(),
{
    let ghost g = group_values(groups@);
    let mut i: usize = groups.len();
    let mut run: usize = 0;
    let mut best: (usize, usize) = (i, 0);
    while i > 0
        invariant
            i <= groups.len(),
            g == group_values(groups@),
            run == zero_run(g, i as int),
            i + run <= groups.len(),
            best.0 == longest_run(g, i as int),
            best.1 == zero_run(g, best.0 as int),
            best.0 + best.1 <= groups.len(),
        decreases i,
    {
        i -= 1;
        assert(g[i as int] == groups@[i as int] as nat);
        run = if groups[i] == 0 {
            run + 1
        } else {
            0
        };
        if run >= best.1 {
            best = (i, run);
        }
    }
    best
}

/// Writes a part of the groups.
fn groups_string(groups: &Vec<u16>, from: usize, to: usize) -> (r: String)
    requires
        from <= to <= groups.len(),
    ensures
        r@ == groups_text(group_values(groups@).subrange(from as int, to as int)),
{
    let ghost g = group_values(groups@);
    let mut s = String::new();
    let mut i: usize = from;
    assert(g.subrange(from as int, from as int) =~= Seq::empty());
    while i < to
        invariant
            from <= i <= to <= groups.len(),
            g == group_values(groups@),
            s@ == groups_text(g.subrange(from as int, i as int)),
        decreases to - i,
    {
        let ghost part = g.subrange(from as int, i + 1);
        let ghost front = s@;
        assert(part.drop_last() =~= g.subrange(from as int, i as int));
        assert(part.last() == groups@[i as int] as nat);
        if i > from {
            s.append(":");
        }
        s.append(number_string(groups[i] as u32, 16).as_str());
        assert(s@ =~= groups_text(part));
        i += 1;
    }
    s
}

/// Writes a version 6 address.
pub fn ipv6_string(bits: u128) -> (r: String)
    ensures
        r@ == ipv6_text(bits as nat),
{
    if bits / 0x100000000 == 0xffff {
        let mut s = "::ffff:".to_owned();
        s.append(ipv4_string((bits % 0x100000000) as u32).as_str());
        return s;
    }
    let groups = segments_of(bits);
    let ghost g = group_values(groups@);
    let (start, len) = longest_run_of(&groups);
    if len > 1 {
        let mut s = groups_string(&groups, 0, start);
        s.append("::");
        s.append(groups_string(&groups, start + len, groups.len()).as_str());
        assert(g.subrange(0, start as int) =~= g.take(start as int));
        assert(g.subrange(start + len, g.len() as int) =~= g.skip(start + len));
        s
    } else {
        assert(g.subrange(0, g.len() as int) =~= g);
        groups_string(&groups, 0, groups.len())
    }
}

/// Writes an address.
pub fn ip_string(ip: IpAddr) -> (r: String)
    ensures
        r@ == ip_text(ip),
{
    match ip {
        IpAddr::V4(bits) => ipv4_string(bits),
        IpAddr::V6(bits) => ipv6_string(bits),
    }
}

/// Writes an address and a port.
pub fn socket_string(socket: SocketAddr) -> (r: String)
    ensures
        r@ == socket_text(socket),
{
    let mut s = match socket.ip {
        IpAddr::V4(_) => {
            let mut s = ip_string(socket.ip);
            s.append(":");
            s
        },
        IpAddr::V6(_) => {
            let mut s = "[".to_owned();
            s.append(ip_string(socket.ip).as_str());
            s.append("]:");
            s
        },
    };
    s.append(number_string(socket.port as u32, 10).as_str());
    s
}

/// Writes a list of addresses.
pub fn list_string(ips: &Vec<IpAddr>) -> (r: String)
    ensures
        r@ == list_text(ips@),
{
    let mut s = "[".to_owned();
    let mut i: usize = 0;
    assert(s@ =~= "["@ + comma_text(ips@.take(0)));
    while i < ips.len()
        invariant
            i <= ips.len(),
            s@ == "["@ + comma_text(ips@.take(i as int)),
        decreases ips.len() - i,
    {
        let ghost front = ips@.take(i as int);
        assert(ips@.take(i + 1).drop_last() =~= front);
        if i > 0 {
            s.append(", ");
        }
        s.append(ip_string(ips[i]).as_str());
        assert(s@ =~= "["@ + comma_text(ips@.take(i + 1)));
        i += 1;
    }
    assert(ips@.take(i as int) =~= ips@);
    s.append("]");
    s
}

} // verus!
