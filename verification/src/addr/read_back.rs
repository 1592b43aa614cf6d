//! Addresses and numbers are read back as they are written.

use vstd::prelude::*;
use crate::addr::display::{
    digit_char, groups_text, ip_text, ipv4_text, ipv6_text, longest_run, number_text, octets,
    segments, zero_run,
};
use crate::addr::{
    colon_list, group_value, groups, ip_value, ipv4_value, ipv6_groups, join_groups,
    join_octets, lemma_double_colon_is, octet_value, plain_groups, IpAddr,
};
use crate::text::{
    digit_value, first_index, is_number, lemma_first_index, lemma_first_index_is, number_value,
    pieces,
};

verus! {

/// A digit of a number that is written.
pub open spec fn is_written_digit(c: char, radix: nat) -> bool {
    '0' <= c <= '9' || radix > 10 && 'a' <= c <= 'f'
}

/// What holds of the digits of a number.
pub open spec fn writes_number(s: Seq<char>, n: nat, radix: nat) -> bool {
    &&& is_number(s, radix)
    &&& number_value(s, radix) == n
    &&& s[0] == '0' ==> s.len() == 1
    &&& forall|i: int| 0 <= i < s.len() ==> is_written_digit(#[trigger] s[i], radix)
}

/// A number is read back as it is written. It is written in digits alone, and without a leading
/// zero.
pub proof fn numbers_are_read_back(n: nat, radix: nat)
    requires
        2 <= radix <= 16,
    ensures
        writes_number(number_text(n, radix), n, radix),
        n > 0 ==> number_text(n, radix)[0] != '0',
    decreases n,
{
    let s = number_text(n, radix);
    if n < radix {
        assert(s =~= seq![digit_char(n)]);
        assert(s.drop_last() =~= Seq::empty());
        assert(number_value(s.drop_last(), radix) == 0);
        assert(digit_value(s.last(), radix) == Some(n));
        assert(number_value(s, radix) == 0 * radix + n);
    } else {
        vstd::arithmetic::div_mod::lemma_div_decreases(n as int, radix as int);
        vstd::arithmetic::div_mod::lemma_fundamental_div_mod(n as int, radix as int);
        vstd::arithmetic::div_mod::lemma_mod_bound(n as int, radix as int);
        let t = number_text(n / radix, radix);
        let d = n % radix;
        numbers_are_read_back(n / radix, radix);
        assert(s =~= t.push(digit_char(d)));
        assert(s.drop_last() =~= t);
        assert(n / radix > 0) by (nonlinear_arith)
            requires
                n == radix * (n / radix) + n % radix,
                n >= radix,
                n % radix < radix,
                radix >= 2,
        ;
        assert(s[0] == t[0]);
        assert(digit_value(digit_char(d), radix) == Some(d));
        assert(number_value(s, radix) == number_value(t, radix) * radix + d);
        assert((n / radix) * radix + d == n) by (nonlinear_arith)
            requires
                n == radix * (n / radix) + d,
        ;
        assert forall|i: int| 0 <= i < s.len() implies digit_value(
            #[trigger] s[i],
            radix,
        ) is Some && is_written_digit(s[i], radix) by {
            if i < t.len() {
                assert(s[i] == t[i]);
            }
        }
        assert(number_value(s, radix) == n);
        assert(is_number(s, radix));
    }
}

proof fn lemma_octet_text(n: nat)
    requires
        n < 256,
    ensures
        octet_value(number_text(n, 10)) == Some(n),
{
    numbers_are_read_back(n, 10);
    reveal_with_fuel(number_text, 4);
}

proof fn lemma_group_text(n: nat)
    requires
        n < 65536,
    ensures
        group_value(number_text(n, 16)) == Some(n),
{
    numbers_are_read_back(n, 16);
    reveal_with_fuel(number_text, 5);
}

/// A text without the separator is one piece.
pub proof fn lemma_one_piece(s: Seq<char>, sep: char)
    requires
        forall|i: int| 0 <= i < s.len() ==> s[i] != sep,
    ensures
        pieces(s, sep) == seq![s],
{
    lemma_first_index_is(s, sep, s.len() as int);
}

/// What precedes the first separator is the first piece.
pub proof fn lemma_first_piece(a: Seq<char>, rest: Seq<char>, sep: char)
    requires
        forall|i: int| 0 <= i < a.len() ==> a[i] != sep,
    ensures
        pieces(a + seq![sep] + rest, sep) == seq![a] + pieces(rest, sep),
{
    let s = a + seq![sep] + rest;
    assert forall|j: int| 0 <= j < a.len() implies s[j] != sep by {
        assert(s[j] == a[j]);
    }
    lemma_first_index_is(s, sep, a.len() as int);
    assert(s.take(a.len() as int) =~= a);
    assert(s.skip(a.len() as int + 1) =~= rest);
}

/// What follows the last separator is the last piece.
pub proof fn lemma_last_piece(front: Seq<char>, last: Seq<char>, sep: char)
    requires
        forall|i: int| 0 <= i < last.len() ==> last[i] != sep,
    ensures
        pieces(front + seq![sep] + last, sep) == pieces(front, sep).push(last),
    decreases front.len(),
{
    let i = first_index(front, sep);
    lemma_first_index(front, sep);
    if i < front.len() {
        let a = front.take(i);
        let rest = front.skip(i + 1);
        lemma_last_piece(rest, last, sep);
        assert(front + seq![sep] + last =~= a + seq![sep] + (rest + seq![sep] + last));
        lemma_first_piece(a, rest + seq![sep] + last, sep);
        assert(seq![a] + pieces(rest, sep).push(last) =~= (seq![a] + pieces(rest, sep)).push(last));
    } else {
        lemma_first_piece(front, last, sep);
        lemma_one_piece(last, sep);
        lemma_one_piece(front, sep);
        assert(seq![front] + seq![last] =~= seq![front].push(last));
    }
}

proof fn lemma_octets_join(bits: nat)
    requires
        bits <= u32::MAX,
    ensures
        join_octets(octets(bits)[0], octets(bits)[1], octets(bits)[2], octets(bits)[3]) == bits,
        forall|i: int| 0 <= i < 4 ==> #[trigger] octets(bits)[i] < 256,
{
    let a = bits / 0x100;
    let b = bits / 0x10000;
    let c = bits / 0x1000000;
    assert(bits == a * 256 + bits % 256);
    assert(a / 256 == b);
    assert(a == b * 256 + a % 256);
    assert(b / 256 == c);
    assert(b == c * 256 + b % 256);
    assert(c < 256);
}

/// The four pieces of a version 4 address, with something before the first one.
proof fn lemma_ipv4_pieces(head: Seq<char>, bits: nat)
    requires
        forall|i: int| 0 <= i < head.len() ==> head[i] != '.',
    ensures
        pieces(head + ipv4_text(bits), '.') == seq![
            head + number_text(octets(bits)[0], 10),
            number_text(octets(bits)[1], 10),
            number_text(octets(bits)[2], 10),
            number_text(octets(bits)[3], 10),
        ],
{
    reveal_strlit(".");
    let o = octets(bits);
    let a = number_text(o[0], 10);
    let b = number_text(o[1], 10);
    let c = number_text(o[2], 10);
    let d = number_text(o[3], 10);
    numbers_are_read_back(o[0], 10);
    numbers_are_read_back(o[1], 10);
    numbers_are_read_back(o[2], 10);
    numbers_are_read_back(o[3], 10);
    let dot = seq!['.'];
    assert("."@ =~= dot);
    let first = head + a;
    assert forall|i: int| 0 <= i < first.len() implies first[i] != '.' by {
        if i >= head.len() {
            assert(first[i] == a[i - head.len()]);
        }
    }
    assert(head + ipv4_text(bits) =~= first + dot + (b + dot + (c + dot + d)));
    lemma_first_piece(first, b + dot + (c + dot + d), '.');
    lemma_first_piece(b, c + dot + d, '.');
    lemma_first_piece(c, d, '.');
    lemma_one_piece(d, '.');
    assert(seq![first] + (seq![b] + (seq![c] + seq![d])) =~= seq![first, b, c, d]);
}

proof fn lemma_ipv4_read_back(bits: nat)
    requires
        bits <= u32::MAX,
    ensures
        ipv4_value(ipv4_text(bits)) == Some(bits),
{
    let o = octets(bits);
    lemma_octets_join(bits);
    lemma_ipv4_pieces(Seq::empty(), bits);
    assert(Seq::<char>::empty() + ipv4_text(bits) =~= ipv4_text(bits));
    assert(Seq::<char>::empty() + number_text(o[0], 10) =~= number_text(o[0], 10));
    lemma_octet_text(o[0]);
    lemma_octet_text(o[1]);
    lemma_octet_text(o[2]);
    lemma_octet_text(o[3]);
}

/// The texts of groups.
spec fn group_texts(g: Seq<nat>) -> Seq<Seq<char>> {
    g.map_values(|n: nat| number_text(n, 16))
}

/// Every number is a group.
spec fn are_groups(g: Seq<nat>) -> bool {
    forall|i: int| 0 <= i < g.len() ==> #[trigger] g[i] < 65536
}

/// Neither at the ends nor twice in a row is there a colon.
spec fn single_colons(s: Seq<char>) -> bool {
    &&& s.len() > 0 ==> s[0] != ':' && s.last() != ':'
    &&& forall|j: int| 0 <= j && j + 1 < s.len() ==> !(#[trigger] s[j] == ':' && s[j + 1] == ':')
}

spec fn has_no(s: Seq<char>, c: char) -> bool {
    forall|j: int| 0 <= j < s.len() ==> s[j] != c
}

proof fn lemma_groups_text(g: Seq<nat>)
    requires
        are_groups(g),
        g.len() > 0,
    ensures
        groups_text(g).len() > 0,
        single_colons(groups_text(g)),
        has_no(groups_text(g), '.'),
        pieces(groups_text(g), ':') == group_texts(g),
    decreases g.len(),
{
    reveal_strlit(":");
    let s = groups_text(g);
    let last = number_text(g.last(), 16);
    numbers_are_read_back(g.last(), 16);
    if g.len() == 1 {
        lemma_one_piece(s, ':');
        assert(group_texts(g) =~= seq![s]);
    } else {
        let front = groups_text(g.drop_last());
        lemma_groups_text(g.drop_last());
        assert(":"@ =~= seq![':']);
        assert(s =~= front + seq![':'] + last);
        lemma_last_piece(front, last, ':');
        assert(group_texts(g) =~= group_texts(g.drop_last()).push(last));
        let n = front.len() as int;
        assert forall|j: int| 0 <= j < s.len() implies s[j] != '.' by {
            if j < n {
                assert(s[j] == front[j]);
            } else if j > n {
                assert(s[j] == last[j - n - 1]);
            }
        }
        assert forall|j: int| 0 <= j && j + 1 < s.len() implies !(#[trigger] s[j] == ':' && s[j + 1]
            == ':') by {
            if j + 1 < n {
                assert(s[j] == front[j]);
                assert(s[j + 1] == front[j + 1]);
            } else if j + 1 == n {
                assert(s[j] == front.last());
            } else if j == n {
                assert(s[j + 1] == last[0]);
            } else {
                assert(s[j] == last[j - n - 1]);
            }
        }
        assert(s[0] == front[0]);
        assert(s.last() == last.last());
    }
}

proof fn lemma_groups_read_back(g: Seq<nat>)
    requires
        are_groups(g),
    ensures
        plain_groups(colon_list(groups_text(g))) == Some(g),
        groups(colon_list(groups_text(g))) == Some(g),
{
    let list = colon_list(groups_text(g));
    if g.len() > 0 {
        lemma_groups_text(g);
        let last = number_text(g.last(), 16);
        numbers_are_read_back(g.last(), 16);
        lemma_one_piece(last, '.');
        assert(list.last() == last);
        assert(ipv4_value(last) is None);
    }
    assert(list =~= group_texts(g));
    assert forall|i: int| 0 <= i < list.len() implies group_value(#[trigger] list[i]) == Some(
        g[i],
    ) by {
        lemma_group_text(g[i]);
    }
    assert(Seq::new(list.len(), |i: int| group_value(list[i])->0) =~= g);
}

proof fn lemma_zero_run(g: Seq<nat>, i: int)
    requires
        0 <= i <= g.len(),
    ensures
        i + zero_run(g, i) <= g.len(),
        forall|k: int| i <= k < i + zero_run(g, i) ==> g[k] == 0,
    decreases g.len() - i,
{
    if i < g.len() && g[i] == 0 {
        lemma_zero_run(g, i + 1);
    }
}

proof fn lemma_longest_run(g: Seq<nat>, i: int)
    requires
        0 <= i <= g.len(),
    ensures
        i <= longest_run(g, i) <= g.len(),
    decreases g.len() - i,
{
    if i < g.len() {
        lemma_longest_run(g, i + 1);
    }
}

proof fn lemma_segments_join(bits: nat)
    requires
        bits <= u128::MAX,
    ensures
        segments(bits).len() == 8,
        are_groups(segments(bits)),
        join_groups(segments(bits)) == bits,
{
    let b1 = bits / 0x10000;
    let b2 = bits / 0x100000000;
    let b3 = bits / 0x1000000000000;
    let b4 = bits / 0x10000000000000000;
    let b5 = bits / 0x100000000000000000000;
    let b6 = bits / 0x1000000000000000000000000;
    let b7 = bits / 0x10000000000000000000000000000;
    assert(bits == b1 * 65536 + bits % 65536);
    assert(b1 / 65536 == b2);
    assert(b2 / 65536 == b3);
    assert(b3 / 65536 == b4);
    assert(b4 / 65536 == b5);
    assert(b5 / 65536 == b6);
    assert(b6 / 65536 == b7);
    assert(b1 == b2 * 65536 + b1 % 65536);
    assert(b2 == b3 * 65536 + b2 % 65536);
    assert(b3 == b4 * 65536 + b3 % 65536);
    assert(b4 == b5 * 65536 + b4 % 65536);
    assert(b5 == b6 * 65536 + b5 % 65536);
    assert(b6 == b7 * 65536 + b6 % 65536);
    assert(b7 < 65536);
}

/// Groups with a run of zeros left out.
proof fn lemma_shortened(g: Seq<nat>, start: int, run: int)
    requires
        g.len() == 8,
        are_groups(g),
        0 <= start,
        run > 1,
        start + run <= 8,
        forall|k: int| start <= k < start + run ==> g[k] == 0,
    ensures
        ({
            let s = groups_text(g.take(start)) + "::"@ + groups_text(g.skip(start + run));
            ipv6_groups(s) == Some(g) && has_no(s, '.')
        }),
{
    reveal_strlit("::");
    let head = g.take(start);
    let tail = g.skip(start + run);
    let h = groups_text(head);
    let t = groups_text(tail);
    let colons = "::"@;
    let s = h + colons + t;
    assert(colons =~= seq![':', ':']);
    if head.len() > 0 {
        lemma_groups_text(head);
    }
    if tail.len() > 0 {
        lemma_groups_text(tail);
    }
    lemma_groups_read_back(head);
    lemma_groups_read_back(tail);
    let n = h.len() as int;
    assert forall|j: int| 0 <= j < n && j + 1 < s.len() implies !(#[trigger] s[j] == ':' && s[j + 1]
        == ':') by {
        assert(s[j] == h[j]);
        if j + 1 < n {
            assert(s[j + 1] == h[j + 1]);
        }
    }
    assert(s[n] == ':' && s[n + 1] == ':');
    lemma_double_colon_is(s, n);
    assert(s.take(n) =~= h);
    assert(s.skip(n + 2) =~= t);
    assert(head + Seq::new((8 - head.len() - tail.len()) as nat, |j: int| 0nat) + tail =~= g);
    assert forall|j: int| 0 <= j < s.len() implies s[j] != '.' by {
        if j < n {
            assert(s[j] == h[j]);
        } else if j >= n + 2 {
            assert(s[j] == t[j - n - 2]);
        }
    }
}

proof fn lemma_plain_ipv6(bits: nat)
    requires
        bits <= u128::MAX,
        bits / 0x100000000 != 0xffff,
    ensures
        ipv4_value(ipv6_text(bits)) is None,
        ipv6_groups(ipv6_text(bits)) == Some(segments(bits)),
{
    let g = segments(bits);
    let s = ipv6_text(bits);
    let start = longest_run(g, 0);
    let run = zero_run(g, start) as int;
    lemma_segments_join(bits);
    lemma_longest_run(g, 0);
    lemma_zero_run(g, start);
    if run > 1 {
        lemma_shortened(g, start, run);
    } else {
        lemma_groups_text(g);
        lemma_groups_read_back(g);
        lemma_double_colon_is(s, s.len() as int);
    }
    lemma_one_piece(s, '.');
}

proof fn lemma_mapped_ipv6(bits: nat)
    requires
        bits / 0x100000000 == 0xffff,
    ensures
        ipv4_value(ipv6_text(bits)) is None,
        ipv6_groups(ipv6_text(bits)) is Some,
        join_groups(ipv6_groups(ipv6_text(bits))->0) == bits,
{
    reveal_strlit("::ffff:");
    let low = bits % 0x100000000;
    let v4 = ipv4_text(low);
    let head = "::ffff:"@;
    let s = ipv6_text(bits);
    assert(s == head + v4);
    // not a version 4 address
    lemma_ipv4_pieces(head, low);
    let first = head + number_text(octets(low)[0], 10);
    assert(first[0] == ':');
    assert(!is_number(first, 10));
    // the pieces between the colons
    lemma_double_colon_is(s, 0);
    let ffff = number_text(0xffff, 16);
    lemma_group_text(0xffff);
    reveal_with_fuel(number_text, 5);
    assert(ffff =~= seq!['f', 'f', 'f', 'f']);
    assert(s.take(0) =~= Seq::empty());
    assert(s.skip(2) =~= ffff + seq![':'] + v4);
    lemma_no_colon(low);
    lemma_first_piece(ffff, v4, ':');
    lemma_one_piece(v4, ':');
    let list = colon_list(s.skip(2));
    assert(list =~= seq![ffff, v4]);
    lemma_ipv4_read_back(low);
    assert(list.drop_last() =~= seq![ffff]);
    assert(plain_groups(list.drop_last()) == Some(seq![0xffffnat])) by {
        assert(Seq::new(1, |i: int| group_value(list.drop_last()[i])->0) =~= seq![0xffffnat]);
    }
    let tail = seq![0xffffnat] + seq![low / 65536, low % 65536];
    assert(groups(list) == Some(tail));
    let none = colon_list(s.take(0));
    assert(plain_groups(none) == Some(Seq::<nat>::empty())) by {
        assert(Seq::new(0, |i: int| group_value(none[i])->0) =~= Seq::empty());
    }
    let all = Seq::<nat>::empty() + Seq::new(5, |j: int| 0nat) + tail;
    assert(ipv6_groups(s) == Some(all));
    assert(all =~= seq![0nat, 0nat, 0nat, 0nat, 0nat, 0xffffnat, low / 65536, low % 65536]);
    assert(bits == 0xffff * 0x100000000 + low);
    assert(low == (low / 65536) * 65536 + low % 65536);
}

proof fn lemma_no_colon(bits: nat)
    ensures
        has_no(ipv4_text(bits), ':'),
{
    reveal_strlit(".");
    let o = octets(bits);
    numbers_are_read_back(o[0], 10);
    numbers_are_read_back(o[1], 10);
    numbers_are_read_back(o[2], 10);
    numbers_are_read_back(o[3], 10);
}

/// Every address is read back as it is written.
pub proof fn addresses_are_read_back(ip: IpAddr)
    ensures
        ip_value(ip_text(ip)) == Some(ip),
{
    reveal(ip_value);
    match ip {
        IpAddr::V4(bits) => {
            lemma_ipv4_read_back(bits as nat);
        },
        IpAddr::V6(bits) => {
            if bits as nat / 0x100000000 == 0xffff {
                lemma_mapped_ipv6(bits as nat);
            } else {
                lemma_plain_ipv6(bits as nat);
                lemma_segments_join(bits as nat);
            }
        },
    }
}

} // verus!
