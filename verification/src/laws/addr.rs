//! How addresses are written, and their order.

use vstd::prelude::*;
use crate::addr::display::{digit_char, ip_text, number_text, octets, socket_text};
use crate::addr::{
    colon_list, double_colon, group_value, groups, ip_value, ipv4_value, join_groups,
    lemma_double_colon_is, octet_value, plain_groups, IpAddr, SocketAddr,
};
use crate::addr::read_back::{lemma_first_piece, lemma_last_piece, lemma_one_piece};
use crate::laws::text::lacks;
use crate::text::{digit_value, first_index, is_number, lemma_first_index, number_value, pieces};

verus! {

/// The order of addresses: no address comes before itself, of two that differ one comes before the
/// other, and what comes before comes before all that follows. Each address is followed by the one
/// with the next bits, and the last of version 4 by the first of version 6.
pub proof fn addresses_are_in_order(a: IpAddr, b: IpAddr, c: IpAddr, bits: u32, long_bits: u128)
    ensures
        !a.precedes(a),
        a != b ==> a.precedes(b) != b.precedes(a),
        a.precedes(b) && b.precedes(c) ==> a.precedes(c),
        bits < u32::MAX ==> IpAddr::V4(bits).precedes(IpAddr::V4((bits + 1) as u32)),
        long_bits < u128::MAX ==> IpAddr::V6(long_bits).precedes(
            IpAddr::V6((long_bits + 1) as u128),
        ),
        IpAddr::V4(bits).precedes(IpAddr::V6(long_bits)),
{
}

/// An octet is written with one digit, with two of which the first is no zero, or with three of
/// which the first is no zero, up to 255.
pub proof fn octets_are_short_numbers(s: Seq<char>)
    ensures
        octet_value(s) is Some ==> 1 <= s.len() <= 3 && octet_value(s)->0 <= 255,
        s.len() == 1 && '0' <= s[0] <= '9' ==> octet_value(s) == Some((s[0] as int - 48) as nat),
        s.len() == 2 && '1' <= s[0] <= '9' && '0' <= s[1] <= '9' ==> octet_value(s) == Some(
            ((s[0] as int - 48) * 10 + s[1] as int - 48) as nat,
        ),
        s.len() == 3 && '1' <= s[0] <= '9' && '0' <= s[1] <= '9' && '0' <= s[2] <= '9' ==> {
            let n = (s[0] as int - 48) * 100 + (s[1] as int - 48) * 10 + s[2] as int - 48;
            octet_value(s) == if n <= 255 {
                Some(n as nat)
            } else {
                None
            }
        },
        s.len() > 1 && s[0] == '0' ==> octet_value(s) is None,
        forall|i: int|
            0 <= i < s.len() && !('0' <= #[trigger] s[i] <= '9') ==> octet_value(s) is None,
{
    reveal_with_fuel(number_value, 4);
    if 1 <= s.len() <= 3 {
        let a = s.drop_last();
        let b = a.drop_last();
        let c = b.drop_last();
        assert(s.len() >= 1 ==> s.last() == s[s.len() - 1]);
        assert(s.len() >= 2 ==> a.last() == s[s.len() - 2]);
        assert(s.len() >= 3 ==> b.last() == s[s.len() - 3]);
        assert(forall|i: int| 0 <= i < s.len() && '0' <= s[i] <= '9' ==> digit_value(s[i], 10)
            == Some((s[i] as int - 48) as nat));
        if forall|i: int| 0 <= i < s.len() ==> '0' <= #[trigger] s[i] <= '9' {
            assert(is_number(s, 10));
        }
    }
    assert forall|i: int| 0 <= i < s.len() && !('0' <= #[trigger] s[i] <= '9') implies octet_value(
        s,
    ) is None by {
        assert(digit_value(s[i], 10) is None);
    }
}

/// A version 4 address is four octets with dots between them, the first of which weighs most. With
/// any other number of pieces, or with a piece that is no octet, there is none.
pub proof fn version_four_is_four_octets(a: Seq<char>, b: Seq<char>, c: Seq<char>, d: Seq<char>)
    requires
        lacks(a, '.'),
        lacks(b, '.'),
        lacks(c, '.'),
        lacks(d, '.'),
    ensures
        ({
            let dot = seq!['.'];
            ipv4_value(a + dot + (b + dot + (c + dot + d))) == match (
                octet_value(a),
                octet_value(b),
                octet_value(c),
                octet_value(d),
            ) {
                (Some(w), Some(x), Some(y), Some(z)) => Some(
                    w * 0x1000000 + x * 0x10000 + y * 0x100 + z,
                ),
                _ => None,
            }
        }),
        ipv4_value(a) is None,
        ipv4_value(a + seq!['.'] + b) is None,
        ipv4_value(a + seq!['.'] + (b + seq!['.'] + c)) is None,
        forall|rest: Seq<char>|
            ipv4_value(
                #[trigger] (a + seq!['.'] + (b + seq!['.'] + (c + seq!['.'] + (d + seq!['.']
                    + rest)))),
            ) is None,
{
    let dot = seq!['.'];
    lemma_one_piece(a, '.');
    lemma_one_piece(b, '.');
    lemma_one_piece(c, '.');
    lemma_one_piece(d, '.');
    lemma_first_piece(a, b, '.');
    lemma_first_piece(b, c, '.');
    lemma_first_piece(a, b + dot + c, '.');
    lemma_first_piece(c, d, '.');
    lemma_first_piece(b, c + dot + d, '.');
    lemma_first_piece(a, b + dot + (c + dot + d), '.');
    assert(seq![a] + (seq![b] + (seq![c] + seq![d])) =~= seq![a, b, c, d]);
    assert forall|rest: Seq<char>|
        ipv4_value(
            #[trigger] (a + seq!['.'] + (b + seq!['.'] + (c + seq!['.'] + (d + seq!['.'] + rest)))),
        ) is None by {
        lemma_first_piece(d, rest, '.');
        lemma_first_piece(c, d + dot + rest, '.');
        lemma_first_piece(b, c + dot + (d + dot + rest), '.');
        lemma_first_piece(a, b + dot + (c + dot + (d + dot + rest)), '.');
        lemma_some_piece(rest, '.');
    }
}

proof fn lemma_some_piece(s: Seq<char>, sep: char)
    ensures
        pieces(s, sep).len() > 0,
{
}

/// A group is one to four hexadecimal digits, in either case.
pub proof fn groups_are_short_numbers(s: Seq<char>)
    ensures
        group_value(s) == if 1 <= s.len() <= 4 && forall|i: int|
            0 <= i < s.len() ==> '0' <= #[trigger] s[i] <= '9' || 'a' <= s[i] <= 'f' || 'A' <= s[i]
                <= 'F' {
            Some(number_value(s, 16))
        } else {
            None
        },
{
    if forall|i: int|
        0 <= i < s.len() ==> '0' <= #[trigger] s[i] <= '9' || 'a' <= s[i] <= 'f' || 'A' <= s[i]
            <= 'F' {
        assert forall|i: int| 0 <= i < s.len() implies digit_value(#[trigger] s[i], 16) is Some by {
            assert('0' <= s[i] <= '9' || 'a' <= s[i] <= 'f' || 'A' <= s[i] <= 'F');
        }
    } else {
        let i = choose|i: int|
            0 <= i < s.len() && !('0' <= #[trigger] s[i] <= '9' || 'a' <= s[i] <= 'f' || 'A' <= s[i]
                <= 'F');
        assert(digit_value(s[i], 16) is None);
    }
}

/// Every text of a list is a group.
pub open spec fn all_groups(list: Seq<Seq<char>>) -> bool {
    forall|i: int| 0 <= i < list.len() ==> group_value(#[trigger] list[i]) is Some
}

/// The values of a list of groups.
pub open spec fn group_values(list: Seq<Seq<char>>) -> Seq<nat> {
    list.map_values(|s: Seq<char>| number_value(s, 16))
}

/// The number whose digits in base 65536 are given, the first of which weighs most.
pub open spec fn base_65536(g: Seq<nat>) -> nat
    decreases g.len(),
{
    if g.len() == 0 {
        0
    } else {
        base_65536(g.drop_last()) * 65536 + g.last()
    }
}

/// There are not two colons in a row.
pub open spec fn no_double_colon(s: Seq<char>) -> bool {
    forall|j: int| 0 <= j && j + 1 < s.len() ==> !(#[trigger] s[j] == ':' && s[j + 1] == ':')
}

/// What stands between the colons, where there is anything.
pub open spec fn between_colons(s: Seq<char>) -> Seq<Seq<char>> {
    if s.len() == 0 {
        Seq::empty()
    } else {
        pieces(s, ':')
    }
}

/// Joining groups reads them as digits.
pub proof fn lemma_join(g: Seq<nat>)
    requires
        g.len() == 8,
    ensures
        join_groups(g) == base_65536(g),
{
    reveal_with_fuel(base_65536, 9);
    let a = g.drop_last();
    let b = a.drop_last();
    let c = b.drop_last();
    let d = c.drop_last();
    let e = d.drop_last();
    let f = e.drop_last();
    let h = f.drop_last();
    assert(h.drop_last().len() == 0);
}

proof fn lemma_plain(list: Seq<Seq<char>>)
    ensures
        all_groups(list) ==> plain_groups(list) == Some(group_values(list)),
        !all_groups(list) ==> plain_groups(list) is None,
{
    if all_groups(list) {
        assert(Seq::new(list.len(), |i: int| group_value(list[i])->0) =~= group_values(list));
    }
}

proof fn lemma_no_dot_in_pieces(s: Seq<char>, sep: char)
    requires
        lacks(s, '.'),
    ensures
        forall|i: int| 0 <= i < pieces(s, sep).len() ==> lacks(#[trigger] pieces(s, sep)[i], '.'),
    decreases s.len(),
{
    let i = first_index(s, sep);
    lemma_first_index(s, sep);
    if i < s.len() {
        let rest = s.skip(i + 1);
        assert(lacks(rest, '.')) by {
            assert forall|k: int| 0 <= k < rest.len() implies rest[k] != '.' by {
                assert(rest[k] == s[k + i + 1]);
            }
        }
        lemma_no_dot_in_pieces(rest, sep);
        let p = pieces(s, sep);
        assert forall|k: int| 0 <= k < p.len() implies lacks(#[trigger] p[k], '.') by {
            if k > 0 {
                assert(p[k] == pieces(rest, sep)[k - 1]);
            }
        }
    }
}

/// Without a dot no piece is a version 4 address, so all are groups or there is no address.
proof fn lemma_undotted(s: Seq<char>)
    requires
        lacks(s, '.'),
    ensures
        groups(colon_list(s)) == plain_groups(between_colons(s)),
        ipv4_value(s) is None,
{
    lemma_one_piece(s, '.');
    if s.len() > 0 {
        lemma_no_dot_in_pieces(s, ':');
        lemma_some_piece(s, ':');
        let last = pieces(s, ':').last();
        assert(lacks(last, '.'));
        lemma_one_piece(last, '.');
    }
}

/// A version 6 address written in full is eight groups with colons between them.
pub proof fn full_addresses_are_eight_groups(s: Seq<char>)
    requires
        s.len() > 0,
        lacks(s, '.'),
        no_double_colon(s),
    ensures
        ({
            let list = between_colons(s);
            ip_value(s) == if list.len() == 8 && all_groups(list) {
                Some(IpAddr::V6(base_65536(group_values(list)) as u128))
            } else {
                None
            }
        }),
{
    reveal(ip_value);
    lemma_undotted(s);
    lemma_double_colon_is(s, s.len() as int);
    let list = between_colons(s);
    lemma_plain(list);
    if list.len() == 8 && all_groups(list) {
        lemma_join(group_values(list));
    }
}

proof fn lemma_first_double_colon(head: Seq<char>, tail: Seq<char>)
    requires
        no_double_colon(head),
        head.len() > 0 ==> head.last() != ':',
    ensures
        ({
            let s = head + seq![':', ':'] + tail;
            &&& double_colon(s) == head.len()
            &&& s.take(head.len() as int) == head
            &&& s.skip(head.len() as int + 2) == tail
        }),
{
    let s = head + seq![':', ':'] + tail;
    let n = head.len() as int;
    assert(s[n] == ':' && s[n + 1] == ':');
    assert forall|j: int| 0 <= j < n && j + 1 < s.len() implies !(#[trigger] s[j] == ':' && s[j + 1]
        == ':') by {
        assert(s[j] == head[j]);
        if j + 1 < n {
            assert(s[j + 1] == head[j + 1]);
        }
    }
    lemma_double_colon_is(s, n);
    assert(s.take(n) =~= head);
    assert(s.skip(n + 2) =~= tail);
}

/// A double colon stands for the groups that are missing, at least one, all of them zero.
pub proof fn double_colons_stand_for_zeros(head: Seq<char>, tail: Seq<char>)
    requires
        lacks(head, '.'),
        lacks(tail, '.'),
        no_double_colon(head),
        head.len() > 0 ==> head.last() != ':',
    ensures
        ({
            let h = between_colons(head);
            let t = between_colons(tail);
            ip_value(head + seq![':', ':'] + tail) == if all_groups(h) && all_groups(t) && h.len()
                + t.len() <= 7 {
                let zeros = Seq::new((8 - h.len() - t.len()) as nat, |i: int| 0nat);
                Some(
                    IpAddr::V6(
                        base_65536(group_values(h) + zeros + group_values(t)) as u128,
                    ),
                )
            } else {
                None
            }
        }),
{
    reveal(ip_value);
    let s = head + seq![':', ':'] + tail;
    let h = between_colons(head);
    let t = between_colons(tail);
    assert forall|i: int| 0 <= i < s.len() implies s[i] != '.' by {
        if i < head.len() {
            assert(s[i] == head[i]);
        } else if i >= head.len() + 2 {
            assert(s[i] == tail[i - head.len() - 2]);
        }
    }
    lemma_undotted(s);
    lemma_undotted(tail);
    lemma_first_double_colon(head, tail);
    lemma_plain(h);
    lemma_plain(t);
    if all_groups(h) && all_groups(t) && h.len() + t.len() <= 7 {
        let zeros = Seq::new((8 - h.len() - t.len()) as nat, |i: int| 0nat);
        lemma_join(group_values(h) + zeros + group_values(t));
    }
}

/// The groups of a text with a version 4 address as its last piece.
proof fn lemma_dotted_end(tail: Seq<char>, dotted: Seq<char>)
    requires
        tail.len() > 0,
        lacks(dotted, ':'),
        ipv4_value(dotted) is Some,
    ensures
        ({
            let n = ipv4_value(dotted)->0;
            groups(colon_list(tail + seq![':'] + dotted)) == if all_groups(between_colons(tail)) {
                Some(group_values(between_colons(tail)) + seq![n / 65536, n % 65536])
            } else {
                None
            }
        }),
{
    let t = between_colons(tail);
    lemma_last_piece(tail, dotted, ':');
    assert(t.push(dotted).drop_last() =~= t);
    lemma_plain(t);
}

/// A version 4 address may be the end of a version 6 address, where it stands for the last two
/// groups.
pub proof fn dotted_ends_are_two_groups(tail: Seq<char>, dotted: Seq<char>)
    requires
        tail.len() > 0,
        tail.last() != ':',
        no_double_colon(tail),
        lacks(dotted, ':'),
        ipv4_value(dotted) is Some,
    ensures
        ({
            let n = ipv4_value(dotted)->0;
            let t = between_colons(tail);
            ip_value(tail + seq![':'] + dotted) == if all_groups(t) && t.len() == 6 {
                Some(
                    IpAddr::V6(
                        base_65536(group_values(t) + seq![n / 65536, n % 65536]) as u128,
                    ),
                )
            } else {
                None
            }
        }),
{
    reveal(ip_value);
    let n = ipv4_value(dotted)->0;
    let full = tail + seq![':'] + dotted;
    let m = tail.len() as int;
    lemma_dotted_is_long(dotted);
    assert forall|j: int| 0 <= j && j + 1 < full.len() implies !(#[trigger] full[j] == ':'
        && full[j + 1] == ':') by {
        if j + 1 < m {
            assert(full[j] == tail[j] && full[j + 1] == tail[j + 1]);
        } else if j + 1 == m {
            assert(full[j] == tail[j]);
        } else {
            assert(full[j + 1] == dotted[j - m]);
        }
    }
    lemma_double_colon_is(full, full.len() as int);
    assert(full[m] == ':');
    lemma_colon_is_no_octet(full, m);
    lemma_dotted_end(tail, dotted);
    if between_colons(tail).len() == 6 {
        lemma_join(group_values(between_colons(tail)) + seq![n / 65536, n % 65536]);
    }
}

/// So it may where a double colon stands for zeros, with groups between them.
pub proof fn dotted_ends_follow_groups(head: Seq<char>, tail: Seq<char>, dotted: Seq<char>)
    requires
        no_double_colon(head),
        head.len() > 0 ==> head.last() != ':',
        tail.len() > 0,
        lacks(dotted, ':'),
        ipv4_value(dotted) is Some,
    ensures
        ({
            let n = ipv4_value(dotted)->0;
            let h = group_values(between_colons(head));
            let t = group_values(between_colons(tail));
            ip_value(head + seq![':', ':'] + (tail + seq![':'] + dotted)) == if all_groups(
                between_colons(head),
            ) && all_groups(between_colons(tail)) && h.len() + t.len() <= 5 {
                let zeros = Seq::new((6 - h.len() - t.len()) as nat, |i: int| 0nat);
                Some(IpAddr::V6(base_65536(h + zeros + (t + seq![n / 65536, n % 65536])) as u128))
            } else {
                None
            }
        }),
{
    reveal(ip_value);
    let n = ipv4_value(dotted)->0;
    let full = tail + seq![':'] + dotted;
    let s = head + seq![':', ':'] + full;
    let h = group_values(between_colons(head));
    let t = group_values(between_colons(tail));
    lemma_plain(between_colons(head));
    lemma_first_double_colon(head, full);
    assert(s[head.len() as int] == ':');
    lemma_colon_is_no_octet(s, head.len() as int);
    lemma_dotted_end(tail, dotted);
    if h.len() + t.len() <= 5 {
        let zeros = Seq::new((6 - h.len() - t.len()) as nat, |i: int| 0nat);
        lemma_join(h + zeros + (t + seq![n / 65536, n % 65536]));
    }
}

/// And so it may directly behind the double colon.
pub proof fn dotted_ends_follow_double_colons(head: Seq<char>, dotted: Seq<char>)
    requires
        no_double_colon(head),
        head.len() > 0 ==> head.last() != ':',
        lacks(dotted, ':'),
        ipv4_value(dotted) is Some,
    ensures
        ({
            let n = ipv4_value(dotted)->0;
            let h = group_values(between_colons(head));
            ip_value(head + seq![':', ':'] + dotted) == if all_groups(between_colons(head))
                && h.len() <= 5 {
                let zeros = Seq::new((6 - h.len()) as nat, |i: int| 0nat);
                Some(IpAddr::V6(base_65536(h + zeros + seq![n / 65536, n % 65536]) as u128))
            } else {
                None
            }
        }),
{
    reveal(ip_value);
    let n = ipv4_value(dotted)->0;
    let s = head + seq![':', ':'] + dotted;
    let h = group_values(between_colons(head));
    lemma_plain(between_colons(head));
    lemma_dotted_is_long(dotted);
    lemma_first_double_colon(head, dotted);
    assert(s[head.len() as int] == ':');
    lemma_colon_is_no_octet(s, head.len() as int);
    lemma_one_piece(dotted, ':');
    let none = Seq::<Seq<char>>::empty();
    assert(seq![dotted].drop_last() =~= none);
    lemma_plain(none);
    assert(group_values(none) =~= Seq::<nat>::empty());
    assert(Seq::<nat>::empty() + seq![n / 65536, n % 65536] =~= seq![n / 65536, n % 65536]);
    if h.len() <= 5 {
        let zeros = Seq::new((6 - h.len()) as nat, |i: int| 0nat);
        lemma_join(h + zeros + seq![n / 65536, n % 65536]);
    }
}

proof fn lemma_dotted_is_long(s: Seq<char>)
    requires
        ipv4_value(s) is Some,
    ensures
        s.len() > 0,
{
    if s.len() == 0 {
        lemma_one_piece(s, '.');
    }
}

/// A text with a colon is no version 4 address.
proof fn lemma_colon_is_no_octet(s: Seq<char>, i: int)
    requires
        0 <= i < s.len(),
        s[i] == ':',
    ensures
        ipv4_value(s) is None,
{
    lemma_in_some_piece(s, '.', i);
    let p = pieces(s, '.');
    let (k, m) = choose|k: int, m: int|
        0 <= k < p.len() && 0 <= m < p[k].len() && #[trigger] p[k][m] == ':';
    assert(digit_value(p[k][m], 10) is None);
    assert(octet_value(p[k]) is None);
}

proof fn lemma_in_some_piece(s: Seq<char>, sep: char, i: int)
    requires
        0 <= i < s.len(),
        s[i] != sep,
    ensures
        exists|k: int, m: int|
            0 <= k < pieces(s, sep).len() && 0 <= m < pieces(s, sep)[k].len() && #[trigger] pieces(
                s,
                sep,
            )[k][m] == s[i],
    decreases s.len(),
{
    let f = first_index(s, sep);
    lemma_first_index(s, sep);
    let p = pieces(s, sep);
    if f < s.len() {
        if i < f {
            assert(p[0] == s.take(f));
            assert(p[0][i] == s[i]);
        } else {
            let rest = s.skip(f + 1);
            assert(rest[i - f - 1] == s[i]);
            lemma_in_some_piece(rest, sep, i - f - 1);
            let q = pieces(rest, sep);
            let (k, m) = choose|k: int, m: int|
                0 <= k < q.len() && 0 <= m < q[k].len() && #[trigger] q[k][m] == s[i];
            assert(p[k + 1] == q[k]);
            assert(p[k + 1][m] == s[i]);
        }
    } else {
        assert(p[0][i] == s[i]);
    }
}

/// A text with a dot is no group.
proof fn lemma_dot_is_no_group(s: Seq<char>)
    requires
        !lacks(s, '.'),
    ensures
        group_value(s) is None,
{
    let i = choose|i: int| 0 <= i < s.len() && s[i] == '.';
    assert(digit_value(s[i], 16) is None);
}

/// A dot in what stands between colons spoils it as a list of groups.
proof fn lemma_dot_spoils_groups(s: Seq<char>, i: int)
    requires
        0 <= i < s.len(),
        s[i] == '.',
    ensures
        plain_groups(pieces(s, ':')) is None,
        plain_groups(colon_list(s)) is None,
{
    lemma_in_some_piece(s, ':', i);
    let p = pieces(s, ':');
    let (k, m) = choose|k: int, m: int|
        0 <= k < p.len() && 0 <= m < p[k].len() && #[trigger] p[k][m] == '.';
    assert(!lacks(p[k], '.'));
    lemma_dot_is_no_group(p[k]);
}

/// Behind the last colon there is no colon.
proof fn lemma_behind_the_last_colon(s: Seq<char>, c: int) -> (k: int)
    requires
        0 <= c < s.len(),
        s[c] == ':',
    ensures
        c <= k < s.len(),
        s[k] == ':',
        lacks(s.skip(k + 1), ':'),
    decreases s.len() - c,
{
    let rest = s.skip(c + 1);
    if lacks(rest, ':') {
        c
    } else {
        let j = choose|j: int| 0 <= j < rest.len() && rest[j] == ':';
        assert(s[c + 1 + j] == ':');
        lemma_behind_the_last_colon(s, c + 1 + j)
    }
}

/// A dot before a colon spoils a list of groups, though it may end in a version 4 address.
proof fn lemma_dot_before_a_colon(s: Seq<char>, i: int, c: int)
    requires
        0 <= i < c < s.len(),
        s[i] == '.',
        s[c] == ':',
    ensures
        groups(colon_list(s)) is None,
{
    let k = lemma_behind_the_last_colon(s, c);
    let a = s.take(k);
    let b = s.skip(k + 1);
    assert(s =~= a + seq![':'] + b);
    lemma_last_piece(a, b, ':');
    assert(pieces(s, ':').drop_last() =~= pieces(a, ':'));
    assert(a[i] == '.');
    lemma_dot_spoils_groups(a, i);
    lemma_dot_spoils_groups(s, i);
}

/// A dot before a colon is not part of an address.
pub proof fn dots_stand_behind_the_colons(front: Seq<char>, rest: Seq<char>)
    requires
        !lacks(front, '.'),
    ensures
        ip_value(front + seq![':'] + rest) is None,
{
    reveal(ip_value);
    let s = front + seq![':'] + rest;
    let c = front.len() as int;
    let i = choose|i: int| 0 <= i < front.len() && front[i] == '.';
    assert(s[i] == '.');
    assert(s[c] == ':');
    lemma_colon_is_no_octet(s, c);
    lemma_double_colon_bounds(s);
    let d = double_colon(s);
    if d < s.len() {
        if i < d {
            assert(s.take(d)[i] == '.');
            lemma_dot_spoils_groups(s.take(d), i);
        } else {
            assert(s[d] == ':' && s[d + 1] == ':');
            let t = s.skip(d + 2);
            assert(t[i - d - 2] == '.');
            assert(t[c - d - 2] == ':');
            lemma_dot_before_a_colon(t, i - d - 2, c - d - 2);
        }
    } else {
        lemma_dot_before_a_colon(s, i, c);
    }
}

/// What has a dot and stands behind the last colon has to be a version 4 address.
pub proof fn dotted_ends_are_version_four(front: Seq<char>, dotted: Seq<char>)
    requires
        lacks(dotted, ':'),
        !lacks(dotted, '.'),
        ipv4_value(dotted) is None,
    ensures
        ip_value(front + seq![':'] + dotted) is None,
        ip_value(dotted) is None,
{
    reveal(ip_value);
    let s = front + seq![':'] + dotted;
    let c = front.len() as int;
    let i = choose|i: int| 0 <= i < dotted.len() && dotted[i] == '.';
    assert(s[c] == ':');
    assert(s[c + 1 + i] == '.');
    lemma_colon_is_no_octet(s, c);
    lemma_double_colon_bounds(s);
    let d = double_colon(s);
    lemma_one_piece(dotted, ':');
    lemma_dot_spoils_groups(dotted, i);
    lemma_double_colon_is(dotted, dotted.len() as int);
    if d < s.len() {
        assert(s[d] == ':' && s[d + 1] == ':');
        if d + 1 > c {
            assert(s[d + 1] == dotted[d - c]);
        }
        let t = s.skip(d + 2);
        assert(t[c + 1 + i - d - 2] == '.');
        lemma_dot_spoils_groups(t, c + 1 + i - d - 2);
        if d + 1 == c {
            assert(t =~= dotted);
        } else {
            let a = s.subrange(d + 2, c);
            assert(t =~= a + seq![':'] + dotted);
            lemma_last_piece(a, dotted, ':');
        }
    } else {
        lemma_dot_spoils_groups(s, c + 1 + i);
        lemma_last_piece(front, dotted, ':');
    }
}

proof fn lemma_double_colon_bounds(s: Seq<char>)
    ensures
        0 <= double_colon(s) <= s.len(),
        double_colon(s) < s.len() ==> double_colon(s) + 1 < s.len() && s[double_colon(s)] == ':'
            && s[double_colon(s) + 1] == ':',
    decreases s.len(),
{
    if s.len() > 0 && !(s.len() >= 2 && s[0] == ':' && s[1] == ':') {
        lemma_double_colon_bounds(s.drop_first());
    }
}

/// A text that is a version 4 address is that address, and no version 6 address.
pub proof fn dotted_texts_are_version_four(s: Seq<char>)
    ensures
        ipv4_value(s) is Some ==> ip_value(s) == Some(IpAddr::V4(ipv4_value(s)->0 as u32)),
        ip_value(s) matches Some(IpAddr::V4(_)) ==> ipv4_value(s) is Some,
{
    reveal(ip_value);
}

/// A number below the radix is written as one digit, and a larger one as what it holds of the radix
/// with the rest behind it. Small letters follow the nine.
pub proof fn numbers_are_written_in_digits(n: nat, d: nat, radix: nat)
    requires
        2 <= radix <= 16,
        d < radix,
    ensures
        number_text(d, radix) == seq![
            if d < 10 {
                (48 + d) as char
            } else {
                (87 + d) as char
            },
        ],
        n > 0 ==> number_text(n * radix + d, radix) == number_text(n, radix)
            + number_text(d, radix),
{
    if n > 0 {
        let m = n * radix + d;
        vstd::arithmetic::div_mod::lemma_fundamental_div_mod_converse(
            m as int,
            radix as int,
            n as int,
            d as int,
        );
        assert(m >= radix) by (nonlinear_arith)
            requires
                m == n * radix + d,
                n > 0,
        ;
        assert(number_text(m, radix) == number_text(n, radix).push(digit_char(d)));
        assert(number_text(n, radix) + seq![digit_char(d)] =~= number_text(n, radix).push(
            digit_char(d),
        ));
    }
}

proof fn lemma_octets(a: nat, b: nat, c: nat, d: nat)
    requires
        a < 256,
        b < 256,
        c < 256,
        d < 256,
    ensures
        ({
            let bits = a * 0x1000000 + b * 0x10000 + c * 0x100 + d;
            &&& bits / 0x1000000 % 256 == a
            &&& bits / 0x10000 % 256 == b
            &&& bits / 0x100 % 256 == c
            &&& bits % 256 == d
        }),
{
    let bits = a * 0x1000000 + b * 0x10000 + c * 0x100 + d;
    let n1 = a * 0x10000 + b * 0x100 + c;
    let n2 = a * 0x100 + b;
    assert(bits == n1 * 256 + d);
    assert(bits / 0x100 == n1);
    assert(bits / 0x10000 == n2);
    assert(bits / 0x1000000 == a);
    assert(n1 % 256 == c);
    assert(n2 % 256 == b);
}

/// A version 4 address is written as its four octets in decimal, with dots between them.
pub proof fn version_four_is_written_in_octets(a: u8, b: u8, c: u8, d: u8)
    ensures
        ({
            let bits = a * 0x1000000 + b * 0x10000 + c * 0x100 + d;
            ip_text(IpAddr::V4(bits as u32)) == number_text(a as nat, 10) + "."@ + number_text(
                b as nat,
                10,
            ) + "."@ + number_text(c as nat, 10) + "."@ + number_text(d as nat, 10)
        }),
{
    let bits = (a * 0x1000000 + b * 0x10000 + c * 0x100 + d) as nat;
    lemma_octets(a as nat, b as nat, c as nat, d as nat);
    assert(octets(bits) =~= seq![a as nat, b as nat, c as nat, d as nat]);
}

/// A socket is written as its address and its port with a colon between them, and an address of
/// version 6 stands in brackets.
pub proof fn sockets_are_written_with_their_port(bits: u32, long_bits: u128, port: u16)
    ensures
        socket_text(SocketAddr { ip: IpAddr::V4(bits), port }) == ip_text(IpAddr::V4(bits)) + ":"@
            + number_text(port as nat, 10),
        socket_text(SocketAddr { ip: IpAddr::V6(long_bits), port }) == "["@ + ip_text(
            IpAddr::V6(long_bits),
        ) + "]:"@ + number_text(port as nat, 10),
{
}

} // verus!
