//! Trimming, splitting, numbers and case.

use vstd::prelude::*;
use crate::addr::read_back::{lemma_first_piece, lemma_last_piece, lemma_one_piece};
use crate::text::{
    bounded_value, chars_of, digit_value, eq_ignore_ascii_case, is_number, is_white_space,
    lemma_first_index_is, lemma_last_index_is, number_value, parse_digits, parse_u16,
    parse_unsigned, pieces, rsplit_once, same_ignoring_case, same_text, split, split_at_first,
    split_at_last, split_once, split_terminator, strip_brackets, terminated_pieces, to_digit, trim,
    trimmed, trimmed_end, trimmed_start, unsigned_value, views, without_brackets,
};

verus! {

/// The character does not occur.
pub open spec fn lacks(s: Seq<char>, c: char) -> bool {
    forall|i: int| 0 <= i < s.len() ==> s[i] != c
}

/// Nothing but white space.
pub open spec fn blank(s: Seq<char>) -> bool {
    forall|i: int| 0 <= i < s.len() ==> is_white_space(#[trigger] s[i])
}

/// White space neither at the start nor at the end.
pub open spec fn bare(s: Seq<char>) -> bool {
    s.len() > 0 ==> !is_white_space(s[0]) && !is_white_space(s.last())
}

/// Of ASCII, the space and the five characters from the tab to the carriage return are white space.
/// No letter, digit or mark is.
pub proof fn white_space_of_ascii(c: char)
    requires
        (c as int) < 128,
    ensures
        is_white_space(c) <==> c == ' ' || c == '\t' || c == '\n' || c as int == 11 || c as int
            == 12 || c == '\r',
{
}

/// Beyond ASCII there are nineteen more: two of Latin-1, the eleven spaces that start at U+2000,
/// and six by themselves.
pub proof fn white_space_beyond_ascii(c: char)
    requires
        c as int >= 128,
    ensures
        is_white_space(c) <==> {
            let n = c as int;
            n == 0x85 || n == 0xa0 || 0x2000 <= n < 0x200b || n == 0x1680 || n == 0x2028 || n
                == 0x2029 || n == 0x202f || n == 0x205f || n == 0x3000
        },
{
}

proof fn lemma_trimmed_start(a: Seq<char>, t: Seq<char>)
    requires
        blank(a),
    ensures
        trimmed_start(a + t) == trimmed_start(t),
    decreases a.len(),
{
    if a.len() == 0 {
        assert(a + t =~= t);
    } else {
        assert(is_white_space(a[0]));
        assert((a + t).drop_first() =~= a.drop_first() + t);
        assert(blank(a.drop_first())) by {
            assert forall|i: int| 0 <= i < a.drop_first().len() implies is_white_space(
                #[trigger] a.drop_first()[i],
            ) by {
                assert(a.drop_first()[i] == a[i + 1]);
            }
        }
        lemma_trimmed_start(a.drop_first(), t);
    }
}

proof fn lemma_trimmed_end(t: Seq<char>, b: Seq<char>)
    requires
        blank(b),
    ensures
        trimmed_end(t + b) == trimmed_end(t),
    decreases b.len(),
{
    if b.len() == 0 {
        assert(t + b =~= t);
    } else {
        assert(is_white_space(b[b.len() - 1]));
        assert((t + b).drop_last() =~= t + b.drop_last());
        assert(blank(b.drop_last())) by {
            assert forall|i: int| 0 <= i < b.drop_last().len() implies is_white_space(
                #[trigger] b.drop_last()[i],
            ) by {
                assert(b.drop_last()[i] == b[i]);
            }
        }
        lemma_trimmed_end(t, b.drop_last());
    }
}

/// Trimming takes the white space off both ends, and nothing else.
pub proof fn trimming_takes_white_space(a: Seq<char>, t: Seq<char>, b: Seq<char>)
    requires
        blank(a),
        blank(b),
        bare(t),
    ensures
        trimmed(a + t + b) == t,
{
    assert(a + t + b =~= a + (t + b));
    lemma_trimmed_start(a, t + b);
    if t.len() == 0 {
        assert(t + b =~= b + t);
        lemma_trimmed_start(b, t);
        assert(trimmed(a + t + b) =~= t);
    } else {
        assert((t + b)[0] == t[0]);
        lemma_trimmed_end(t, b);
    }
}

/// A text is parted at the first of the characters, and not at all where there is none.
pub proof fn parted_at_the_first(a: Seq<char>, c: char, b: Seq<char>)
    requires
        lacks(a, c),
    ensures
        split_at_first(a, c) is None,
        split_at_first(a + seq![c] + b, c) == Some((a, b)),
{
    lemma_first_index_is(a, c, a.len() as int);
    let s = a + seq![c] + b;
    let n = a.len() as int;
    assert forall|j: int| 0 <= j < n implies s[j] != c by {
        assert(s[j] == a[j]);
    }
    lemma_first_index_is(s, c, n);
    assert(s.take(n) =~= a);
    assert(s.skip(n + 1) =~= b);
}

/// A text is parted at the last of the characters, and not at all where there is none.
pub proof fn parted_at_the_last(a: Seq<char>, c: char, b: Seq<char>)
    requires
        lacks(b, c),
    ensures
        split_at_last(b, c) is None,
        split_at_last(a + seq![c] + b, c) == Some((a, b)),
{
    lemma_last_index_is(b, c, -1);
    let s = a + seq![c] + b;
    let n = a.len() as int;
    assert forall|j: int| n < j < s.len() implies s[j] != c by {
        assert(s[j] == b[j - n - 1]);
    }
    lemma_last_index_is(s, c, n);
    assert(s.take(n) =~= a);
    assert(s.skip(n + 1) =~= b);
}

/// A text without the separator is its only piece. One with it is what stands before the first one,
/// and the pieces of the rest.
pub proof fn pieces_lie_between_separators(a: Seq<char>, sep: char, rest: Seq<char>)
    requires
        lacks(a, sep),
    ensures
        pieces(a, sep) == seq![a],
        pieces(a + seq![sep] + rest, sep) == seq![a] + pieces(rest, sep),
{
    lemma_one_piece(a, sep);
    lemma_first_piece(a, rest, sep);
}

proof fn lemma_last_piece_is_filled(s: Seq<char>, sep: char)
    requires
        s.len() > 0,
        s.last() != sep,
    ensures
        pieces(s, sep).len() > 0,
        pieces(s, sep).last().len() > 0,
    decreases s.len(),
{
    let i = crate::text::first_index(s, sep);
    crate::text::lemma_first_index(s, sep);
    if i < s.len() {
        assert(i != s.len() - 1);
        let rest = s.skip(i + 1);
        assert(rest.last() == s.last());
        lemma_last_piece_is_filled(rest, sep);
        assert((seq![s.take(i)] + pieces(rest, sep)).last() == pieces(rest, sep).last());
    }
}

/// A separator at the very end ends the last piece and starts none. An empty text has no piece.
pub proof fn a_last_separator_starts_no_piece(s: Seq<char>, sep: char)
    ensures
        terminated_pieces(Seq::empty(), sep) == Seq::<Seq<char>>::empty(),
        terminated_pieces(s.push(sep), sep) == pieces(s, sep),
        s.len() > 0 && s.last() != sep ==> terminated_pieces(s, sep) == pieces(s, sep),
{
    let none = Seq::<char>::empty();
    lemma_one_piece(none, sep);
    assert(seq![none].drop_last() =~= Seq::<Seq<char>>::empty());
    lemma_last_piece(s, none, sep);
    assert(s + seq![sep] + none =~= s.push(sep));
    assert(pieces(s, sep).push(none).drop_last() =~= pieces(s, sep));
    if s.len() > 0 && s.last() != sep {
        lemma_last_piece_is_filled(s, sep);
    }
}

/// The digits of a radix are the decimal ones and then the letters from `a` on, small or capital,
/// as many as the radix says.
pub proof fn digits_have_their_values(c: char, radix: nat)
    requires
        radix <= 16,
    ensures
        '0' <= c <= '9' && c as int - 48 < radix ==> digit_value(c, radix) == Some(
            (c as int - 48) as nat,
        ),
        'a' <= c <= 'z' && c as int - 87 < radix ==> digit_value(c, radix) == Some(
            (c as int - 87) as nat,
        ),
        'A' <= c <= 'Z' && c as int - 55 < radix ==> digit_value(c, radix) == Some(
            (c as int - 55) as nat,
        ),
        !('0' <= c <= '9' && c as int - 48 < radix) && !('a' <= c <= 'z' && c as int - 87 < radix)
            && !('A' <= c <= 'Z' && c as int - 55 < radix) ==> digit_value(c, radix) is None,
{
}

/// A digit behind a number makes it radix times as large and adds the digit.
pub proof fn digits_weigh_by_their_place(s: Seq<char>, c: char, radix: nat)
    requires
        digit_value(c, radix) is Some,
    ensures
        number_value(Seq::empty(), radix) == 0,
        number_value(s.push(c), radix) == number_value(s, radix) * radix + digit_value(
            c,
            radix,
        )->0,
        is_number(s.push(c), radix) <==> s.len() == 0 || is_number(s, radix),
        !is_number(Seq::empty(), radix),
{
    assert(s.push(c).drop_last() =~= s);
    if s.len() == 0 || is_number(s, radix) {
        assert forall|i: int| 0 <= i < s.push(c).len() implies digit_value(
            #[trigger] s.push(c)[i],
            radix,
        ) is Some by {
            if i < s.len() {
                assert(s.push(c)[i] == s[i]);
            }
        }
    }
    if is_number(s.push(c), radix) {
        assert forall|i: int| 0 <= i < s.len() implies digit_value(
            #[trigger] s[i],
            radix,
        ) is Some by {
            assert(s.push(c)[i] == s[i]);
        }
    }
}

/// A decimal number: one digit by itself is its value, and a digit behind a number makes it ten
/// times as large and adds the digit. One plus sign may stand before it. Nothing else is a number.
pub proof fn decimal_numbers(s: Seq<char>, c: char)
    ensures
        unsigned_value(Seq::empty()) is None,
        unsigned_value(seq![c]) == if '0' <= c <= '9' {
            Some((c as int - 48) as nat)
        } else {
            None
        },
        s.len() > 0 && s[0] != '+' ==> unsigned_value(s.push(c)) == match unsigned_value(s) {
            Some(n) => if '0' <= c <= '9' {
                Some((n * 10 + c as int - 48) as nat)
            } else {
                None
            },
            None => None,
        },
        unsigned_value(seq!['+'] + s) == if s.len() > 0 && s[0] != '+' {
            unsigned_value(s)
        } else {
            None
        },
{
    let none = Seq::<char>::empty();
    assert(seq![c] =~= none.push(c));
    assert(seq![c].drop_last() =~= none);
    assert(number_value(none, 10) == 0);
    assert(seq![c][0] == c);
    if c == '+' {
        assert(seq![c].skip(1) =~= none);
    } else {
        assert(is_number(seq![c], 10) <==> digit_value(c, 10) is Some);
    }
    if s.len() > 0 && s[0] != '+' {
        assert(s.push(c)[0] == s[0]);
        assert(s.push(c).last() == c);
        if digit_value(c, 10) is Some {
            digits_weigh_by_their_place(s, c, 10);
        } else {
            assert(s.push(c)[s.len() as int] == c);
            assert(!is_number(s.push(c), 10));
        }
    }
    let plus = seq!['+'] + s;
    assert(plus[0] == '+');
    assert(plus.skip(1) =~= s);
    if s.len() > 0 && s[0] == '+' {
        assert(digit_value(s[0], 10) is None);
        assert(!is_number(s, 10));
    }
}

/// A bound keeps the numbers up to it, each as it is, and no others.
pub proof fn numbers_up_to_a_bound(s: Seq<char>, max: nat)
    ensures
        match unsigned_value(s) {
            Some(n) => {
                &&& n <= max ==> bounded_value(s, max) == Some(n)
                &&& n > max ==> bounded_value(s, max) is None
            },
            None => bounded_value(s, max) is None,
        },
{
}

/// The characters are the same letter of ASCII, one small and one capital.
pub open spec fn other_case(a: char, b: char) -> bool {
    ||| 'a' <= a <= 'z' && b as int == a as int - 32
    ||| 'A' <= a <= 'Z' && b as int == a as int + 32
}

/// Texts are the same but for case where they are equally long and at every place have the same
/// character or the same letter in either case.
pub proof fn case_of_ascii_letters(a: Seq<char>, b: Seq<char>)
    ensures
        same_ignoring_case(a, b) <==> a.len() == b.len() && forall|i: int|
            0 <= i < a.len() ==> (#[trigger] a[i] == b[i] || other_case(a[i], b[i])),
{
    if same_ignoring_case(a, b) {
        assert forall|i: int| 0 <= i < a.len() implies (#[trigger] a[i] == b[i] || other_case(
            a[i],
            b[i],
        )) by {
            assert(crate::text::ascii_lower(a[i]) == crate::text::ascii_lower(b[i]));
        }
    }
}

/// Square brackets are taken out of a text wherever they stand, and nothing else is.
pub proof fn brackets_are_taken_out(s: Seq<char>, c: char)
    ensures
        without_brackets(Seq::empty()) == Seq::<char>::empty(),
        without_brackets(s.push(c)) == if c == '[' || c == ']' {
            without_brackets(s)
        } else {
            without_brackets(s).push(c)
        },
{
    reveal(Seq::filter);
    assert(s.push(c).drop_last() =~= s);
    assert(without_brackets(Seq::empty()) =~= Seq::<char>::empty());
}

/// Texts are compared, trimmed and freed of brackets as they are.
pub proof fn texts_are_compared_and_trimmed(
    a: &str,
    b: &str,
    same: bool,
    alike: bool,
    inner: &str,
    stripped: String,
    chars: Vec<char>,
)
    requires
        call_ensures(same_text, (a, b), same),
        call_ensures(eq_ignore_ascii_case, (a, b), alike),
        call_ensures(trim, (a,), inner),
        call_ensures(strip_brackets, (a,), stripped),
        call_ensures(chars_of, (a,), chars),
    ensures
        same <==> a@ == b@,
        alike <==> a@.len() == b@.len() && forall|i: int|
            0 <= i < a@.len() ==> (#[trigger] a@[i] == b@[i] || other_case(a@[i], b@[i])),
        inner@ == trimmed(a@),
        stripped@ == without_brackets(a@),
        chars@ == a@,
{
    case_of_ascii_letters(a@, b@);
}

/// Texts are parted where they are to be parted.
pub proof fn texts_are_parted(
    s: &str,
    c: char,
    first: Option<(&str, &str)>,
    last: Option<(&str, &str)>,
    all: Vec<&str>,
    ended: Vec<&str>,
    i: int,
)
    requires
        call_ensures(split_once, (s, c), first),
        call_ensures(rsplit_once, (s, c), last),
        call_ensures(split, (s, c), all),
        call_ensures(split_terminator, (s, c), ended),
    ensures
        first is None <==> lacks(s@, c),
        first matches Some((a, b)) ==> s@ == a@ + seq![c] + b@ && lacks(a@, c),
        last is None <==> lacks(s@, c),
        last matches Some((a, b)) ==> s@ == a@ + seq![c] + b@ && lacks(b@, c),
        all@.len() == pieces(s@, c).len(),
        0 <= i < all@.len() ==> all@[i]@ == pieces(s@, c)[i],
        ended@.len() == terminated_pieces(s@, c).len(),
        0 <= i < ended@.len() ==> ended@[i]@ == terminated_pieces(s@, c)[i],
{
    lemma_parted(s@, c);
    assert(views(all@).len() == all@.len());
    assert(views(ended@).len() == ended@.len());
    if 0 <= i < all@.len() {
        assert(views(all@)[i] == all@[i]@);
    }
    if 0 <= i < ended@.len() {
        assert(views(ended@)[i] == ended@[i]@);
    }
}

proof fn lemma_parted(s: Seq<char>, c: char)
    ensures
        split_at_first(s, c) is None <==> lacks(s, c),
        split_at_first(s, c) matches Some((a, b)) ==> s == a + seq![c] + b && lacks(a, c),
        split_at_last(s, c) is None <==> lacks(s, c),
        split_at_last(s, c) matches Some((a, b)) ==> s == a + seq![c] + b && lacks(b, c),
{
    if lacks(s, c) {
        parted_at_the_first(s, c, s);
        parted_at_the_last(s, c, s);
    } else {
        let i = choose|i: int| 0 <= i < s.len() && s[i] == c;
        lemma_first_of(s, c, i);
        lemma_last_of(s, c, i);
    }
}

proof fn lemma_first_of(s: Seq<char>, c: char, i: int)
    requires
        0 <= i < s.len(),
        s[i] == c,
    ensures
        split_at_first(s, c) matches Some((a, b)) && s == a + seq![c] + b && lacks(a, c),
    decreases i,
{
    let a = s.take(i);
    let b = s.skip(i + 1);
    assert(s =~= a + seq![c] + b);
    if lacks(a, c) {
        parted_at_the_first(a, c, b);
    } else {
        let j = choose|j: int| 0 <= j < a.len() && a[j] == c;
        lemma_first_of(s, c, j);
    }
}

proof fn lemma_last_of(s: Seq<char>, c: char, i: int)
    requires
        0 <= i < s.len(),
        s[i] == c,
    ensures
        split_at_last(s, c) matches Some((a, b)) && s == a + seq![c] + b && lacks(b, c),
    decreases s.len() - i,
{
    let a = s.take(i);
    let b = s.skip(i + 1);
    assert(s =~= a + seq![c] + b);
    if lacks(b, c) {
        parted_at_the_last(a, c, b);
    } else {
        let j = choose|j: int| 0 <= j < b.len() && b[j] == c;
        assert(s[i + 1 + j] == c);
        lemma_last_of(s, c, i + 1 + j);
    }
}

/// Digits and numbers are read with the values that they have, up to the bound.
pub proof fn numbers_are_read(
    c: char,
    radix: u32,
    digit: Option<u32>,
    s: &str,
    max: u64,
    number: Option<u64>,
    port: Option<u16>,
    chars: &Vec<char>,
    from: usize,
    digits: Option<u64>,
)
    requires
        call_ensures(parse_digits, (chars, from, radix, max), digits),
        call_ensures(to_digit, (c, radix), digit),
        call_ensures(parse_unsigned, (s, max), number),
        call_ensures(parse_u16, (s,), port),
    ensures
        match digit {
            Some(d) => digit_value(c, radix as nat) == Some(d as nat),
            None => digit_value(c, radix as nat) is None,
        },
        match number {
            Some(n) => unsigned_value(s@) == Some(n as nat) && n <= max,
            None => unsigned_value(s@) matches Some(n) ==> n > max,
        },
        match port {
            Some(n) => unsigned_value(s@) == Some(n as nat),
            None => unsigned_value(s@) matches Some(n) ==> n > 65535,
        },
        ({
            let rest = chars@.skip(from as int);
            match digits {
                Some(n) => {
                    &&& is_number(rest, radix as nat)
                    &&& n == number_value(rest, radix as nat)
                    &&& n <= max
                },
                None => is_number(rest, radix as nat) ==> number_value(rest, radix as nat) > max,
            }
        }),
{
}

} // verus!
