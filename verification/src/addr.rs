//! Internet addresses and how they are written.

pub mod display;
pub mod read_back;

use vstd::prelude::*;
use crate::text::{
    chars_of, digit_value, is_number, number_value, parse_digits, pieces, split, views,
};

verus! {

/// An Internet address: the 32 bits of a version 4 address or the 128 bits of a version 6 one,
/// in network order.
#[derive(Clone, Copy, Debug, PartialEq, Eq, Structural, PartialOrd, Ord)]
pub enum IpAddr {
    V4(u32),
    V6(u128),
}

impl View for IpAddr {
    type V = IpAddr;

    open spec fn view(&self) -> IpAddr {
        *self
    }
}

impl IpAddr {
    /// Addresses are in order by their bits, those of version 4 before those of version 6.
    pub open spec fn precedes(self, other: IpAddr) -> bool {
        match (self, other) {
            (IpAddr::V4(a), IpAddr::V4(b)) => a < b,
            (IpAddr::V4(_), IpAddr::V6(_)) => true,
            (IpAddr::V6(_), IpAddr::V4(_)) => false,
            (IpAddr::V6(a), IpAddr::V6(b)) => a < b,
        }
    }

    /// Whether the address comes before the other one.
    pub fn is_before(self, other: IpAddr) -> (r: bool)
        ensures
            r == self.precedes(other),
    {
        match (self, other) {
            (IpAddr::V4(a), IpAddr::V4(b)) => a < b,
            (IpAddr::V4(_), IpAddr::V6(_)) => true,
            (IpAddr::V6(_), IpAddr::V4(_)) => false,
            (IpAddr::V6(a), IpAddr::V6(b)) => a < b,
        }
    }
}

/// An address together with a port.
#[derive(Clone, Copy, Debug, PartialEq, Eq, Structural, PartialOrd, Ord)]
pub struct SocketAddr {
    pub ip: IpAddr,
    pub port: u16,
}

impl SocketAddr {
    pub fn new(ip: IpAddr, port: u16) -> (r: SocketAddr)
        ensures
            r.ip == ip,
            r.port == port,
    {
        SocketAddr { ip, port }
    }
}

/// An octet: one to three decimal digits without a leading zero, at most 255.
pub open spec fn octet_value(s: Seq<char>) -> Option<nat> {
    if is_number(s, 10) && s.len() <= 3 && (s[0] == '0' ==> s.len() == 1) && number_value(s, 10)
        <= 255 {
        Some(number_value(s, 10))
    } else {
        None
    }
}

/// The number whose digits in base 256 are `a`, `b`, `c` and `d`.
pub open spec fn join_octets(a: nat, b: nat, c: nat, d: nat) -> nat {
    ((a * 256 + b) * 256 + c) * 256 + d
}

/// A version 4 address: four octets with dots between them.
pub open spec fn ipv4_value(s: Seq<char>) -> Option<nat> {
    let p = pieces(s, '.');
    if p.len() == 4 && octet_value(p[0]) is Some && octet_value(p[1]) is Some && octet_value(
        p[2],
    ) is Some && octet_value(p[3]) is Some {
        Some(
            join_octets(
                octet_value(p[0])->0,
                octet_value(p[1])->0,
                octet_value(p[2])->0,
                octet_value(p[3])->0,
            ),
        )
    } else {
        None
    }
}

/// A group of 16 bits: one to four hexadecimal digits.
pub open spec fn group_value(s: Seq<char>) -> Option<nat> {
    if is_number(s, 16) && s.len() <= 4 {
        Some(number_value(s, 16))
    } else {
        None
    }
}

/// What stands between the colons; nothing at all where `s` is empty.
pub open spec fn colon_list(s: Seq<char>) -> Seq<Seq<char>> {
    if s.len() == 0 {
        Seq::empty()
    } else {
        pieces(s, ':')
    }
}

/// A list of groups.
pub open spec fn plain_groups(list: Seq<Seq<char>>) -> Option<Seq<nat>> {
    if forall|i: int| 0 <= i < list.len() ==> group_value(#[trigger] list[i]) is Some {
        Some(Seq::new(list.len(), |i: int| group_value(list[i])->0))
    } else {
        None
    }
}

/// A list of groups, the last two of which may be written as a version 4 address.
pub open spec fn groups(list: Seq<Seq<char>>) -> Option<Seq<nat>> {
    if list.len() > 0 && ipv4_value(list.last()) is Some {
        let v4 = ipv4_value(list.last())->0;
        match plain_groups(list.drop_last()) {
            Some(front) => Some(front + seq![v4 / 65536, v4 % 65536]),
            None => None,
        }
    } else {
        plain_groups(list)
    }
}

/// The position of the first double colon of `s`, or the length of `s` where there is none.
pub open spec fn double_colon(s: Seq<char>) -> int
    decreases s.len(),
{
    if s.len() == 0 || (s.len() >= 2 && s[0] == ':' && s[1] == ':') {
        0
    } else {
        1 + double_colon(s.drop_first())
    }
}

/// The eight groups of a version 6 address. A double colon stands for at least one group of
/// zeros; a version 4 address may only stand at the very end.
pub open spec fn ipv6_groups(s: Seq<char>) -> Option<Seq<nat>> {
    let i = double_colon(s);
    if i < s.len() {
        match (plain_groups(colon_list(s.take(i))), groups(colon_list(s.skip(i + 2)))) {
            (Some(head), Some(tail)) => if head.len() + tail.len() <= 7 {
                Some(head + Seq::new((8 - head.len() - tail.len()) as nat, |j: int| 0nat) + tail)
            } else {
                None
            },
            _ => None,
        }
    } else {
        match groups(colon_list(s)) {
            Some(all) => if all.len() == 8 {
                Some(all)
            } else {
                None
            },
            None => None,
        }
    }
}

/// The number whose digits in base 65536 are the eight groups.
pub open spec fn join_groups(g: Seq<nat>) -> nat {
    ((((((g[0] * 65536 + g[1]) * 65536 + g[2]) * 65536 + g[3]) * 65536 + g[4]) * 65536 + g[5])
        * 65536 + g[6]) * 65536 + g[7]
}

/// The address that a text writes.
#[verifier::opaque]
pub open spec fn ip_value(s: Seq<char>) -> Option<IpAddr> {
    match ipv4_value(s) {
        Some(v4) => Some(IpAddr::V4(v4 as u32)),
        None => match ipv6_groups(s) {
            Some(g) => Some(IpAddr::V6(join_groups(g) as u128)),
            None => None,
        },
    }
}

proof fn lemma_number_bound(s: Seq<char>, radix: nat, limit: nat)
    requires
        2 <= radix <= 16,
        is_number(s, radix) || s.len() == 0,
        limit == vstd::arithmetic::power::pow(radix as int, s.len()),
    ensures
        number_value(s, radix) < limit,
    decreases s.len(),
{
    reveal(vstd::arithmetic::power::pow);
    if s.len() > 0 {
        let t = s.drop_last();
        let below = vstd::arithmetic::power::pow(radix as int, t.len());
        assert forall|i: int| 0 <= i < t.len() implies digit_value(
            #[trigger] t[i],
            radix,
        ) is Some by {
            assert(t[i] == s[i]);
        }
        vstd::arithmetic::power::lemma_pow_positive(radix as int, t.len());
        lemma_number_bound(t, radix, below as nat);
        assert(digit_value(s[s.len() - 1], radix) is Some);
        let n = number_value(t, radix);
        assert(limit == radix * below);
        assert(n * radix + radix <= radix * below) by (nonlinear_arith)
            requires
                n + 1 <= below,
        ;
    }
}

proof fn lemma_group_bound(s: Seq<char>)
    requires
        group_value(s) is Some,
    ensures
        number_value(s, 16) < 65536,
{
    vstd::arithmetic::power::lemma_pow_positive(16, s.len());
    lemma_number_bound(s, 16, vstd::arithmetic::power::pow(16, s.len()) as nat);
    reveal_with_fuel(vstd::arithmetic::power::pow, 6);
}

fn parse_octet(s: &str) -> (r: Option<u8>)
    ensures
        match r {
            Some(n) => octet_value(s@) == Some(n as nat),
            None => octet_value(s@) is None,
        },
{
    let chars = chars_of(s);
    assert(s@.skip(0) =~= s@);
    if chars.len() == 0 || chars.len() > 3 || (chars[0] == '0' && chars.len() != 1) {
        return None;
    }
    match parse_digits(&chars, 0, 10, 255) {
        Some(n) => Some(n as u8),
        None => None,
    }
}

/// Reads a version 4 address.
pub fn parse_ipv4(s: &str) -> (r: Option<u32>)
    ensures
        match r {
            Some(n) => ipv4_value(s@) == Some(n as nat),
            None => ipv4_value(s@) is None,
        },
{
    let p = split(s, '.');
    assert forall|i: int| 0 <= i < p.len() implies pieces(s@, '.')[i] == (#[trigger] p[i])@ by {
        assert(views(p@)[i] == p[i]@);
    }
    assert(pieces(s@, '.').len() == p.len());
    if p.len() != 4 {
        return None;
    }
    match (parse_octet(p[0]), parse_octet(p[1]), parse_octet(p[2]), parse_octet(p[3])) {
        (Some(a), Some(b), Some(c), Some(d)) => Some(
            ((a as u32 * 256 + b as u32) * 256 + c as u32) * 256 + d as u32,
        ),
        _ => None,
    }
}

fn parse_group(s: &str) -> (r: Option<u16>)
    ensures
        match r {
            Some(n) => group_value(s@) == Some(n as nat),
            None => group_value(s@) is None,
        },
{
    let chars = chars_of(s);
    assert(s@.skip(0) =~= s@);
    if chars.len() > 4 {
        return None;
    }
    proof {
        if group_value(s@) is Some {
            lemma_group_bound(s@);
        }
    }
    match parse_digits(&chars, 0, 16, 0xffff) {
        Some(n) => Some(n as u16),
        None => None,
    }
}

/// Groups as numbers.
pub open spec fn numbers(g: Seq<u16>) -> Seq<nat> {
    g.map_values(|n: u16| n as nat)
}

fn parse_colon_list(s: &str) -> (r: Vec<&str>)
    ensures
        views(r@) == colon_list(s@),
{
    if s.is_empty() {
        let r: Vec<&str> = Vec::new();
        assert(views(r@) =~= colon_list(s@));
        r
    } else {
        split(s, ':')
    }
}

fn parse_plain_groups(list: &Vec<&str>, count: usize) -> (r: Option<Vec<u16>>)
    requires
        count <= list.len(),
    ensures
        match r {
            Some(g) => plain_groups(views(list@).take(count as int)) == Some(numbers(g@)),
            None => plain_groups(views(list@).take(count as int)) is None,
        },
{
    let ghost texts = views(list@).take(count as int);
    let mut out: Vec<u16> = Vec::new();
    let mut i: usize = 0;
    while i < count
        invariant
            i <= count <= list.len(),
            texts == views(list@).take(count as int),
            out.len() == i,
            forall|j: int| 0 <= j < i ==> group_value(#[trigger] texts[j]) == Some(out[j] as nat),
        decreases count - i,
    {
        assert(texts[i as int] == list[i as int]@);
        match parse_group(list[i]) {
            Some(n) => {
                out.push(n);
            },
            None => {
                return None;
            },
        }
        i += 1;
    }
    assert(numbers(out@) =~= Seq::new(texts.len(), |i: int| group_value(texts[i])->0));
    Some(out)
}

fn parse_groups(s: &str) -> (r: Option<Vec<u16>>)
    ensures
        match r {
            Some(g) => groups(colon_list(s@)) == Some(numbers(g@)),
            None => groups(colon_list(s@)) is None,
        },
{
    let list = parse_colon_list(s);
    let ghost texts = views(list@);
    if list.len() > 0 {
        let last = list[list.len() - 1];
        assert(texts.last() == last@);
        if let Some(v4) = parse_ipv4(last) {
            assert(texts.take(list.len() - 1) =~= texts.drop_last());
            return match parse_plain_groups(&list, list.len() - 1) {
                Some(mut g) => {
                    let ghost front = g@;
                    g.push((v4 / 65536) as u16);
                    g.push((v4 % 65536) as u16);
                    assert(numbers(g@) =~= numbers(front) + seq![
                        v4 as nat / 65536,
                        v4 as nat % 65536,
                    ]);
                    Some(g)
                },
                None => None,
            };
        }
    }
    assert(texts.take(list.len() as int) =~= texts);
    parse_plain_groups(&list, list.len())
}

proof fn lemma_double_colon(s: Seq<char>)
    ensures
        0 <= double_colon(s) <= s.len(),
        double_colon(s) < s.len() ==> double_colon(s) + 2 <= s.len() && s[double_colon(s)] == ':'
            && s[double_colon(s) + 1] == ':',
        forall|j: int|
            0 <= j < double_colon(s) && j + 1 < s.len() ==> !(#[trigger] s[j] == ':' && s[j + 1]
                == ':'),
    decreases s.len(),
{
    if s.len() > 0 && !(s.len() >= 2 && s[0] == ':' && s[1] == ':') {
        let t = s.drop_first();
        lemma_double_colon(t);
        assert forall|j: int|
            0 <= j < double_colon(s) && j + 1 < s.len() implies !(#[trigger] s[j] == ':' && s[j + 1]
            == ':') by {
            if j > 0 {
                assert(s[j] == t[j - 1]);
                assert(s[j + 1] == t[j]);
            }
        }
    }
}

/// The first double colon is the one that no other precedes.
pub proof fn lemma_double_colon_is(s: Seq<char>, i: int)
    requires
        0 <= i <= s.len(),
        i < s.len() ==> i + 2 <= s.len() && s[i] == ':' && s[i + 1] == ':',
        forall|j: int|
            0 <= j < i && j + 1 < s.len() ==> !(#[trigger] s[j] == ':' && s[j + 1] == ':'),
    ensures
        double_colon(s) == i,
{
    lemma_double_colon(s);
    let d = double_colon(s);
    if d < i {
        assert(s[d] == ':' && s[d + 1] == ':');
    }
    if i < d {
        assert(!(s[i] == ':' && s[i + 1] == ':'));
    }
}

fn find_double_colon(chars: &Vec<char>) -> (i: usize)
    ensures
        i == double_colon(chars@),
        i <= chars.len(),
        i < chars.len() ==> i + 2 <= chars.len(),
{
    let n = chars.len();
    let mut i: usize = 0;
    while i < n && (i + 1 == n || chars[i] != ':' || chars[i + 1] != ':')
        invariant
            i <= n == chars.len(),
            forall|j: int|
                0 <= j < i && j + 1 < n ==> !(#[trigger] chars@[j] == ':' && chars@[j + 1] == ':'),
        decreases n - i,
    {
        i += 1;
    }
    proof {
        lemma_double_colon_is(chars@, i as int);
    }
    i
}

fn parse_ipv6_groups(s: &str) -> (r: Option<Vec<u16>>)
    ensures
        match r {
            Some(g) => g.len() == 8 && ipv6_groups(s@) == Some(numbers(g@)),
            None => ipv6_groups(s@) is None,
        },
{
    let chars = chars_of(s);
    let n = chars.len();
    let i = find_double_colon(&chars);
    if i == n {
        return match parse_groups(s) {
            Some(all) => if all.len() == 8 {
                Some(all)
            } else {
                None
            },
            None => None,
        };
    }
    let before = s.substring_char(0, i);
    let after = s.substring_char(i + 2, n);
    assert(before@ =~= s@.take(i as int));
    assert(after@ =~= s@.skip(i + 2));
    let front = parse_colon_list(before);
    assert(views(front@).take(front.len() as int) =~= views(front@));
    match (parse_plain_groups(&front, front.len()), parse_groups(after)) {
        (Some(mut head), Some(tail)) => {
            if head.len() > 7 || tail.len() > 7 - head.len() {
                return None;
            }
            let ghost h = head@;
            let fill: usize = 8 - head.len() - tail.len();
            let mut j: usize = 0;
            while j < fill
                invariant
                    j <= fill,
                    head.len() == h.len() + j,
                    numbers(head@) == numbers(h) + Seq::new(j as nat, |k: int| 0nat),
                decreases fill - j,
            {
                let ghost was = head@;
                head.push(0);
                assert(numbers(head@) =~= numbers(was).push(0));
                assert(numbers(head@) =~= numbers(h) + Seq::new((j + 1) as nat, |k: int| 0nat));
                j += 1;
            }
            let ghost filled = head@;
            let mut k: usize = 0;
            assert(numbers(tail@).take(0) =~= Seq::<nat>::empty());
            while k < tail.len()
                invariant
                    k <= tail.len(),
                    head.len() == filled.len() + k,
                    numbers(head@) == numbers(filled) + numbers(tail@).take(k as int),
                decreases tail.len() - k,
            {
                let ghost was = head@;
                head.push(tail[k]);
                assert(numbers(head@) =~= numbers(was).push(tail[k as int] as nat));
                assert(numbers(head@) =~= numbers(filled) + numbers(tail@).take(k + 1));
                k += 1;
            }
            assert(numbers(tail@).take(k as int) =~= numbers(tail@));
            Some(head)
        },
        _ => None,
    }
}

/// Reads an address of either version.
pub fn parse_ip(s: &str) -> (r: Option<IpAddr>)
    ensures
        r == ip_value(s@),
{
    reveal(ip_value);
    if let Some(v4) = parse_ipv4(s) {
        return Some(IpAddr::V4(v4));
    }
    match parse_ipv6_groups(s) {
        Some(g) => {
            assert forall|i: int| 0 <= i < 8 implies numbers(g@)[i] == #[trigger] g[i] by {}
            let bits: u128 = ((((((g[0] as u128 * 65536 + g[1] as u128) * 65536 + g[2] as u128)
                * 65536 + g[3] as u128) * 65536 + g[4] as u128) * 65536 + g[5] as u128) * 65536
                + g[6] as u128) * 65536 + g[7] as u128;
            Some(IpAddr::V6(bits))
        },
        None => None,
    }
}

} // verus!
