//! Reading plain text: trimming, splitting, numbers and case-blind comparison.

use vstd::prelude::*;

verus! {

/// The Unicode `White_Space` property.
pub open spec fn is_white_space(c: char) -> bool {
    ||| '\u{9}' <= c <= '\u{d}'
    ||| c == '\u{20}'
    ||| c == '\u{85}'
    ||| c == '\u{a0}'
    ||| c == '\u{1680}'
    ||| '\u{2000}' <= c <= '\u{200a}'
    ||| c == '\u{2028}'
    ||| c == '\u{2029}'
    ||| c == '\u{202f}'
    ||| c == '\u{205f}'
    ||| c == '\u{3000}'
}

/// `s` without its leading white space.
pub open spec fn trimmed_start(s: Seq<char>) -> Seq<char>
    decreases s.len(),
{
    if s.len() > 0 && is_white_space(s[0]) {
        trimmed_start(s.drop_first())
    } else {
        s
    }
}

/// `s` without its trailing white space.
pub open spec fn trimmed_end(s: Seq<char>) -> Seq<char>
    decreases s.len(),
{
    if s.len() > 0 && is_white_space(s.last()) {
        trimmed_end(s.drop_last())
    } else {
        s
    }
}

/// `s` without white space at either end.
pub open spec fn trimmed(s: Seq<char>) -> Seq<char> {
    trimmed_end(trimmed_start(s))
}

/// The position of the first `c` in `s`, or the length of `s` where there is none.
pub open spec fn first_index(s: Seq<char>, c: char) -> int
    decreases s.len(),
{
    if s.len() == 0 || s[0] == c {
        0
    } else {
        1 + first_index(s.drop_first(), c)
    }
}

/// The position of the last `c` in `s`, or -1 where there is none.
pub open spec fn last_index(s: Seq<char>, c: char) -> int
    decreases s.len(),
{
    if s.len() == 0 || s.last() == c {
        s.len() - 1
    } else {
        last_index(s.drop_last(), c)
    }
}

/// What stands before and after the first `c`.
pub open spec fn split_at_first(s: Seq<char>, c: char) -> Option<(Seq<char>, Seq<char>)> {
    let i = first_index(s, c);
    if i < s.len() {
        Some((s.take(i), s.skip(i + 1)))
    } else {
        None
    }
}

/// What stands before and after the last `c`.
pub open spec fn split_at_last(s: Seq<char>, c: char) -> Option<(Seq<char>, Seq<char>)> {
    let i = last_index(s, c);
    if i >= 0 {
        Some((s.take(i), s.skip(i + 1)))
    } else {
        None
    }
}

/// The pieces of `s` between the `sep` characters, empty pieces kept.
pub open spec fn pieces(s: Seq<char>, sep: char) -> Seq<Seq<char>>
    decreases s.len(),
{
    let i = first_index(s, sep);
    if 0 <= i < s.len() {
        seq![s.take(i)] + pieces(s.skip(i + 1), sep)
    } else {
        seq![s]
    }
}

/// The pieces of `s` between the `sep` characters, without an empty last one.
pub open spec fn terminated_pieces(s: Seq<char>, sep: char) -> Seq<Seq<char>> {
    let all = pieces(s, sep);
    if all.last().len() == 0 {
        all.drop_last()
    } else {
        all
    }
}

/// The views of a list of string slices.
pub open spec fn views(list: Seq<&str>) -> Seq<Seq<char>> {
    list.map_values(|s: &str| s@)
}

/// The value of `c` as a digit of the given radix, at most 16.
pub open spec fn digit_value(c: char, radix: nat) -> Option<nat> {
    let d: int = if '0' <= c <= '9' {
        c as int - '0' as int
    } else if 'a' <= c <= 'f' {
        c as int - 'a' as int + 10
    } else if 'A' <= c <= 'F' {
        c as int - 'A' as int + 10
    } else {
        radix as int
    };
    if d < radix {
        Some(d as nat)
    } else {
        None
    }
}

/// At least one character, and every one a digit.
pub open spec fn is_number(s: Seq<char>, radix: nat) -> bool {
    &&& s.len() > 0
    &&& forall|i: int| 0 <= i < s.len() ==> digit_value(#[trigger] s[i], radix) is Some
}

/// The number that a sequence of digits writes, most significant digit first.
pub open spec fn number_value(s: Seq<char>, radix: nat) -> nat
    decreases s.len(),
{
    if s.len() == 0 {
        0
    } else {
        let d = digit_value(s.last(), radix);
        number_value(s.drop_last(), radix) * radix + (if d is Some {
            d->0
        } else {
            0
        })
    }
}

/// An unsigned decimal number: digits, with at most one plus sign before them.
pub open spec fn unsigned_value(s: Seq<char>) -> Option<nat> {
    let digits = if s.len() > 0 && s[0] == '+' {
        s.skip(1)
    } else {
        s
    };
    if is_number(digits, 10) {
        Some(number_value(digits, 10))
    } else {
        None
    }
}

/// An unsigned decimal number that is at most `max`.
pub open spec fn bounded_value(s: Seq<char>, max: nat) -> Option<nat> {
    match unsigned_value(s) {
        Some(n) => if n <= max {
            Some(n)
        } else {
            None
        },
        None => None,
    }
}

/// `c` in lower case where it is an ASCII letter, `c` itself elsewhere.
pub open spec fn ascii_lower(c: char) -> char {
    if 'A' <= c <= 'Z' {
        (c as u32 + 32) as char
    } else {
        c
    }
}

/// Equal but for the case of ASCII letters.
pub open spec fn same_ignoring_case(a: Seq<char>, b: Seq<char>) -> bool {
    &&& a.len() == b.len()
    &&& forall|i: int| 0 <= i < a.len() ==> ascii_lower(#[trigger] a[i]) == ascii_lower(b[i])
}

/// `s` without square brackets.
pub open spec fn without_brackets(s: Seq<char>) -> Seq<char> {
    s.filter(|c: char| c != '[' && c != ']')
}

/// The first index is that of the first `c`, or the length.
pub proof fn lemma_first_index(s: Seq<char>, c: char)
    ensures
        0 <= first_index(s, c) <= s.len(),
        forall|j: int| 0 <= j < first_index(s, c) ==> s[j] != c,
        first_index(s, c) < s.len() ==> s[first_index(s, c)] == c,
    decreases s.len(),
{
    if s.len() > 0 && s[0] != c {
        let t = s.drop_first();
        lemma_first_index(t, c);
        assert forall|j: int| 0 <= j < first_index(s, c) implies s[j] != c by {
            if j > 0 {
                assert(s[j] == t[j - 1]);
            }
        }
    }
}

/// The first `c` of `s` is the one that no other precedes.
pub proof fn lemma_first_index_is(s: Seq<char>, c: char, i: int)
    requires
        0 <= i <= s.len(),
        forall|j: int| 0 <= j < i ==> s[j] != c,
        i < s.len() ==> s[i] == c,
    ensures
        first_index(s, c) == i,
{
    lemma_first_index(s, c);
}

proof fn lemma_last_index(s: Seq<char>, c: char)
    ensures
        -1 <= last_index(s, c) < s.len(),
        forall|j: int| last_index(s, c) < j < s.len() ==> s[j] != c,
        last_index(s, c) >= 0 ==> s[last_index(s, c)] == c,
    decreases s.len(),
{
    if s.len() > 0 && s.last() != c {
        lemma_last_index(s.drop_last(), c);
        let t = s.drop_last();
        assert forall|j: int| last_index(s, c) < j < s.len() implies s[j] != c by {
            if j < s.len() - 1 {
                assert(s[j] == t[j]);
            }
        }
    }
}

/// The last `c` of `s` is the one that no other follows.
pub proof fn lemma_last_index_is(s: Seq<char>, c: char, i: int)
    requires
        -1 <= i < s.len(),
        forall|j: int| i < j < s.len() ==> s[j] != c,
        i >= 0 ==> s[i] == c,
    ensures
        last_index(s, c) == i,
{
    lemma_last_index(s, c);
}

/// The characters of `s`.
pub fn chars_of(s: &str) -> (chars: Vec<char>)
    ensures
        chars@ == s@,
{
    let mut chars: Vec<char> = Vec::new();
    for c in it: s.chars()
        invariant
            it.seq() == s@,
            chars@ == s@.take(it.index()),
    {
        chars.push(c);
    }
    chars
}

/// Whether two texts are equal.
pub fn same_text(a: &str, b: &str) -> (same: bool)
    ensures
        same == (a@ == b@),
{
    let left = chars_of(a);
    let right = chars_of(b);
    if left.len() != right.len() {
        return false;
    }
    let mut i: usize = 0;
    while i < left.len()
        invariant
            i <= left.len(),
            left@ == a@,
            right@ == b@,
            left.len() == right.len(),
            forall|j: int| 0 <= j < i ==> left[j] == right[j],
        decreases left.len() - i,
    {
        if left[i] != right[i] {
            return false;
        }
        i += 1;
    }
    assert(a@ =~= b@);
    true
}

fn white_space(c: char) -> (white: bool)
    ensures
        white == is_white_space(c),
{
    ('\u{9}' <= c && c <= '\u{d}') || c == '\u{20}' || c == '\u{85}' || c == '\u{a0}' || c
        == '\u{1680}' || ('\u{2000}' <= c && c <= '\u{200a}') || c == '\u{2028}' || c
        == '\u{2029}' || c == '\u{202f}' || c == '\u{205f}' || c == '\u{3000}'
}

/// `s` without white space at either end.
pub fn trim(s: &str) -> (r: &str)
    ensures
        r@ == trimmed(s@),
{
    let chars = chars_of(s);
    let mut lo: usize = 0;
    let mut hi: usize = chars.len();
    assert(s@.skip(0) =~= s@);
    while lo < hi && white_space(chars[lo])
        invariant
            lo <= hi,
            hi == chars.len(),
            chars@ == s@,
            trimmed_start(s@) == trimmed_start(s@.skip(lo as int)),
        decreases hi - lo,
    {
        assert(s@.skip(lo as int).drop_first() =~= s@.skip(lo + 1));
        lo += 1;
    }
    let ghost t = s@.skip(lo as int);
    assert(trimmed_start(s@) == t);
    assert(s@.subrange(lo as int, hi as int) =~= t);
    while lo < hi && white_space(chars[hi - 1])
        invariant
            lo <= hi <= chars.len(),
            chars@ == s@,
            trimmed_end(t) == trimmed_end(s@.subrange(lo as int, hi as int)),
        decreases hi - lo,
    {
        let ghost u = s@.subrange(lo as int, hi as int);
        assert(u.last() == chars[hi - 1]);
        assert(u.drop_last() =~= s@.subrange(lo as int, hi - 1));
        hi -= 1;
    }
    s.substring_char(lo, hi)
}

/// Splits `s` at the first `c`.
pub fn split_once(s: &str, c: char) -> (r: Option<(&str, &str)>)
    ensures
        match r {
            Some((before, after)) => split_at_first(s@, c) == Some((before@, after@)),
            None => split_at_first(s@, c) is None,
        },
{
    let chars = chars_of(s);
    let mut i: usize = 0;
    while i < chars.len()
        invariant
            i <= chars.len(),
            chars@ == s@,
            forall|j: int| 0 <= j < i ==> s@[j] != c,
        decreases chars.len() - i,
    {
        if chars[i] == c {
            proof {
                lemma_first_index_is(s@, c, i as int);
            }
            let before = s.substring_char(0, i);
            let after = s.substring_char(i + 1, chars.len());
            assert(before@ =~= s@.take(i as int));
            assert(after@ =~= s@.skip(i + 1));
            return Some((before, after));
        }
        i += 1;
    }
    proof {
        lemma_first_index_is(s@, c, i as int);
    }
    None
}

/// Splits `s` at the last `c`.
pub fn rsplit_once(s: &str, c: char) -> (r: Option<(&str, &str)>)
    ensures
        match r {
            Some((before, after)) => split_at_last(s@, c) == Some((before@, after@)),
            None => split_at_last(s@, c) is None,
        },
{
    let chars = chars_of(s);
    let mut i: usize = chars.len();
    while i > 0
        invariant
            i <= chars.len(),
            chars@ == s@,
            forall|j: int| i <= j < s@.len() ==> s@[j] != c,
        decreases i,
    {
        i -= 1;
        if chars[i] == c {
            proof {
                lemma_last_index_is(s@, c, i as int);
            }
            let before = s.substring_char(0, i);
            let after = s.substring_char(i + 1, chars.len());
            assert(before@ =~= s@.take(i as int));
            assert(after@ =~= s@.skip(i + 1));
            return Some((before, after));
        }
    }
    proof {
        lemma_last_index_is(s@, c, -1);
    }
    None
}

/// Splits `s` at every `sep`.
pub fn split(s: &str, sep: char) -> (r: Vec<&str>)
    ensures
        views(r@) == pieces(s@, sep),
        r.len() > 0,
{
    let chars = chars_of(s);
    let mut list: Vec<&str> = Vec::new();
    let mut start: usize = 0;
    let mut i: usize = 0;
    assert(s@.skip(0) =~= s@);
    assert(views(list@) =~= Seq::<Seq<char>>::empty());
    while i < chars.len()
        invariant
            start <= i <= chars.len(),
            chars@ == s@,
            forall|j: int| start <= j < i ==> s@[j] != sep,
            pieces(s@, sep) == views(list@) + pieces(s@.skip(start as int), sep),
        decreases chars.len() - i,
    {
        if chars[i] == sep {
            let ghost rest = s@.skip(start as int);
            let ghost before = list@;
            proof {
                lemma_first_index_is(rest, sep, i - start);
            }
            let piece = s.substring_char(start, i);
            list.push(piece);
            proof {
                assert(piece@ =~= rest.take(i - start));
                assert(rest.skip(i - start + 1) =~= s@.skip(i + 1));
                assert(views(list@) =~= views(before).push(piece@));
                assert(views(list@) + pieces(s@.skip(i + 1), sep) =~= views(before) + (seq![
                    piece@,
                ] + pieces(s@.skip(i + 1), sep)));
            }
            start = i + 1;
        }
        i += 1;
    }
    let ghost rest = s@.skip(start as int);
    let ghost before = list@;
    proof {
        lemma_first_index_is(rest, sep, rest.len() as int);
    }
    let piece = s.substring_char(start, chars.len());
    list.push(piece);
    assert(piece@ =~= rest);
    assert(views(list@) =~= views(before) + seq![piece@]);
    list
}

/// Splits `s` at every `sep`; an empty last piece is left out.
pub fn split_terminator(s: &str, sep: char) -> (r: Vec<&str>)
    ensures
        views(r@) == terminated_pieces(s@, sep),
{
    let mut list = split(s, sep);
    let ghost all = list@;
    let last = list[list.len() - 1];
    assert(views(all).last() == last@);
    if last.is_empty() {
        list.pop();
        assert(views(list@) =~= views(all).drop_last());
    }
    list
}

proof fn lemma_number_grows(s: Seq<char>, radix: nat, i: int)
    requires
        0 <= i <= s.len(),
        radix >= 1,
    ensures
        number_value(s.take(i), radix) <= number_value(s, radix),
    decreases s.len() - i,
{
    if i < s.len() {
        lemma_number_grows(s, radix, i + 1);
        assert(s.take(i + 1).drop_last() =~= s.take(i));
        let n = number_value(s.take(i), radix);
        assert(n <= n * radix) by (nonlinear_arith)
            requires
                radix >= 1,
        ;
    } else {
        assert(s.take(i) =~= s);
    }
}

/// The value of `c` as a digit.
pub fn to_digit(c: char, radix: u32) -> (r: Option<u32>)
    requires
        radix <= 16,
    ensures
        match r {
            Some(d) => digit_value(c, radix as nat) == Some(d as nat),
            None => digit_value(c, radix as nat) is None,
        },
{
    let d: u32 = if '0' <= c && c <= '9' {
        c as u32 - '0' as u32
    } else if 'a' <= c && c <= 'f' {
        c as u32 - 'a' as u32 + 10
    } else if 'A' <= c && c <= 'F' {
        c as u32 - 'A' as u32 + 10
    } else {
        radix
    };
    if d < radix {
        Some(d)
    } else {
        None
    }
}

/// Reads the digits of `chars` from `from` on as a number that is at most `max`.
pub fn parse_digits(chars: &Vec<char>, from: usize, radix: u32, max: u64) -> (r: Option<u64>)
    requires
        from <= chars.len(),
        2 <= radix <= 16,
    ensures
        match r {
            Some(n) => {
                &&& is_number(chars@.skip(from as int), radix as nat)
                &&& number_value(chars@.skip(from as int), radix as nat) == n
                &&& n <= max
            },
            None => {
                ||| !is_number(chars@.skip(from as int), radix as nat)
                ||| number_value(chars@.skip(from as int), radix as nat) > max
            },
        },
{
    let ghost digits = chars@.skip(from as int);
    if from == chars.len() {
        return None;
    }
    let mut acc: u64 = 0;
    let mut i: usize = from;
    assert(digits.take(0) =~= Seq::<char>::empty());
    while i < chars.len()
        invariant
            from <= i <= chars.len(),
            2 <= radix <= 16,
            digits == chars@.skip(from as int),
            acc <= max,
            acc == number_value(digits.take(i - from), radix as nat),
            forall|j: int|
                0 <= j < i - from ==> digit_value(#[trigger] digits[j], radix as nat) is Some,
        decreases chars.len() - i,
    {
        assert(digits[i - from] == chars[i as int]);
        match to_digit(chars[i], radix) {
            Some(d) => {
                assert(digits.take(i - from + 1).drop_last() =~= digits.take(i - from));
                assert(acc as u128 * radix as u128 <= 0xffff_ffff_ffff_ffff * 16)
                    by (nonlinear_arith)
                    requires
                        acc <= 0xffff_ffff_ffff_ffff,
                        radix <= 16,
                ;
                let next: u128 = acc as u128 * radix as u128 + d as u128;
                assert(next == number_value(digits.take(i - from + 1), radix as nat));
                if next > max as u128 {
                    proof {
                        lemma_number_grows(digits, radix as nat, i - from + 1);
                    }
                    return None;
                }
                acc = next as u64;
            },
            None => {
                return None;
            },
        }
        i += 1;
    }
    assert(digits.take(i - from) =~= digits);
    Some(acc)
}

/// Reads an unsigned decimal number that is at most `max`.
pub fn parse_unsigned(s: &str, max: u64) -> (r: Option<u64>)
    ensures
        match r {
            Some(n) => bounded_value(s@, max as nat) == Some(n as nat),
            None => bounded_value(s@, max as nat) is None,
        },
{
    let chars = chars_of(s);
    let from: usize = if chars.len() > 0 && chars[0] == '+' {
        1
    } else {
        0
    };
    assert(s@.skip(0) =~= s@);
    parse_digits(&chars, from, 10, max)
}

/// Reads a port number.
pub fn parse_u16(s: &str) -> (r: Option<u16>)
    ensures
        match r {
            Some(n) => bounded_value(s@, u16::MAX as nat) == Some(n as nat),
            None => bounded_value(s@, u16::MAX as nat) is None,
        },
{
    match parse_unsigned(s, u16::MAX as u64) {
        Some(n) => Some(n as u16),
        None => None,
    }
}

fn lower(c: char) -> (r: char)
    ensures
        r == ascii_lower(c),
{
    if 'A' <= c && c <= 'Z' {
        (c as u8 + 32) as char
    } else {
        c
    }
}

/// Whether two texts are equal but for the case of ASCII letters.
pub fn eq_ignore_ascii_case(a: &str, b: &str) -> (same: bool)
    ensures
        same == same_ignoring_case(a@, b@),
{
    let left = chars_of(a);
    let right = chars_of(b);
    if left.len() != right.len() {
        return false;
    }
    let mut i: usize = 0;
    while i < left.len()
        invariant
            i <= left.len(),
            left@ == a@,
            right@ == b@,
            left.len() == right.len(),
            forall|j: int|
                0 <= j < i ==> ascii_lower(#[trigger] left@[j]) == ascii_lower(right@[j]),
        decreases left.len() - i,
    {
        if lower(left[i]) != lower(right[i]) {
            return false;
        }
        i += 1;
    }
    true
}

/// `s` without square brackets.
pub fn strip_brackets(s: &str) -> (r: String)
    ensures
        r@ == without_brackets(s@),
{
    reveal(Seq::filter);
    let chars = chars_of(s);
    let ghost keep = |c: char| c != '[' && c != ']';
    let mut out = String::new();
    let mut i: usize = 0;
    assert(s@.take(0).filter(keep) =~= Seq::<char>::empty());
    while i < chars.len()
        invariant
            i <= chars.len(),
            chars@ == s@,
            keep == (|c: char| c != '[' && c != ']'),
            out@ == s@.take(i as int).filter(keep),
        decreases chars.len() - i,
    {
        proof {
            reveal(Seq::filter);
            assert(s@.take(i + 1).drop_last() =~= s@.take(i as int));
            assert(keep(chars[i as int]) == (chars[i as int] != '[' && chars[i as int] != ']'));
        }
        if chars[i] != '[' && chars[i] != ']' {
            let one = s.substring_char(i, i + 1);
            let ghost before = out@;
            out.append(one);
            assert(out@ =~= before.push(chars[i as int]));
        }
        i += 1;
    }
    assert(s@.take(i as int) =~= s@);
    out
}

} // verus!
