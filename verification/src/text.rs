//! Text as sequences of characters: cutting at separators, joining, words,
//! decimal numerals, and the parts of `std` that the rest of the crate leans on.

use crate::scan::{first_index, lemma_first_index, lemma_first_index_is};
use vstd::prelude::*;

verus! {

/// The upper-case form of a text. This is the result of `str::to_uppercase`,
/// which follows the Unicode case mappings; nothing else is known of it here.
pub uninterp spec fn uppercase(s: Seq<char>) -> Seq<char>;

/// Whether a character counts as white space. This is the answer of
/// `char::is_whitespace`, the Unicode property `White_Space`.
pub uninterp spec fn whitespace(c: char) -> bool;

/// The text that bytes are read as, whether they are valid UTF-8 or not. This
/// is the result of `String::from_utf8_lossy`, which puts U+FFFD in the place
/// of what is not valid.
pub uninterp spec fn lossy_text(bytes: Seq<u8>) -> Seq<char>;

/// `str::to_uppercase` returns a new string that holds the upper-case form of the text.
pub assume_specification[ str::to_uppercase ](s: &str) -> (r: String)
    ensures
        r@ == uppercase(s@),
;

/// `char::is_whitespace` depends on the character alone.
pub assume_specification[ char::is_whitespace ](c: char) -> (b: bool)
    ensures
        b == whitespace(c),
;

/// `String::push` appends one character at the end and changes nothing else.
pub assume_specification[ String::push ](s: &mut String, c: char)
    ensures
        final(s)@ == old(s)@.push(c),
;

/// `String::from_utf8_lossy` reads bytes as text, and the text depends on the
/// bytes alone. The result is copied into a string of its own.
#[verifier::external_body]
pub(crate) fn decode_lossy(bytes: &[u8]) -> (r: String)
    ensures
        r@ == lossy_text(bytes@),
{
    String::from_utf8_lossy(bytes).into_owned()
}

/// The test whether a character is `c`.
pub open spec fn is_char(c: char) -> spec_fn(char) -> bool {
    |x: char| x == c
}

/// The test whether a character is white space.
pub open spec fn is_space() -> spec_fn(char) -> bool {
    |x: char| whitespace(x)
}

/// The index of the first `c` in `s`, or the length of `s` where there is none.
pub open spec fn position(s: Seq<char>, c: char) -> int {
    first_index(s, is_char(c))
}

/// The pieces of `s` between the occurrences of `sep`. There is always at
/// least one piece, and a piece may be empty.
pub open spec fn split(s: Seq<char>, sep: char) -> Seq<Seq<char>>
    decreases s.len(),
    via split_decreases
{
    let i = position(s, sep);
    if i < s.len() {
        seq![s.take(i)] + split(s.skip(i + 1), sep)
    } else {
        seq![s]
    }
}

#[via_fn]
proof fn split_decreases(s: Seq<char>, sep: char) {
    lemma_first_index(s, is_char(sep));
}

/// The part of `s` before the first `c`: all of `s` where it holds no `c`.
pub open spec fn before(s: Seq<char>, c: char) -> Seq<char> {
    s.take(position(s, c))
}

/// The part of `s` behind the first `c`: nothing where it holds no `c`.
pub open spec fn after(s: Seq<char>, c: char) -> Seq<char> {
    if position(s, c) < s.len() {
        s.skip(position(s, c) + 1)
    } else {
        Seq::empty()
    }
}

/// The parts in order, with `sep` between each two neighbours.
pub open spec fn join(parts: Seq<Seq<char>>, sep: Seq<char>) -> Seq<char>
    decreases parts.len(),
{
    if parts.len() == 0 {
        Seq::empty()
    } else if parts.len() == 1 {
        parts[0]
    } else {
        join(parts.drop_last(), sep) + sep + parts.last()
    }
}

/// The number of characters before the first white space in `s`.
pub open spec fn word_len(s: Seq<char>) -> int {
    first_index(s, is_space())
}

/// The maximal runs of characters of `s` that are not white space, in order.
pub open spec fn words(s: Seq<char>) -> Seq<Seq<char>>
    decreases s.len(),
    via words_decreases
{
    if s.len() == 0 {
        Seq::empty()
    } else if whitespace(s[0]) {
        words(s.drop_first())
    } else {
        seq![s.take(word_len(s))] + words(s.skip(word_len(s)))
    }
}

#[via_fn]
proof fn words_decreases(s: Seq<char>) {
    lemma_first_index(s, is_space());
}

/// The character that writes a digit below ten.
pub open spec fn digit(d: nat) -> char {
    "0123456789"@[d as int]
}

/// The decimal numeral of `n`, without leading zeros.
pub open spec fn decimal(n: nat) -> Seq<char>
    decreases n,
{
    if n < 10 {
        seq![digit(n)]
    } else {
        decimal(n / 10).push(digit(n % 10))
    }
}

/// The number that a decimal numeral stands for.
pub open spec fn numeral_value(digits: Seq<char>) -> nat
    decreases digits.len(),
{
    if digits.len() == 0 {
        0
    } else {
        10 * numeral_value(digits.drop_last()) + position("0123456789"@, digits.last()) as nat
    }
}

/// The character sequences that the vectors hold.
pub open spec fn views(v: Seq<Vec<char>>) -> Seq<Seq<char>> {
    v.map_values(|p: Vec<char>| p@)
}

/// The character sequences that the strings hold.
pub open spec fn texts(v: Seq<String>) -> Seq<Seq<char>> {
    v.map_values(|p: String| p@)
}

/// The position of `c` lies within the text or at its end, `c` stands there
/// if it lies within, and nowhere before it.
pub proof fn lemma_position_bounds(s: Seq<char>, c: char)
    ensures
        0 <= position(s, c) <= s.len(),
        position(s, c) < s.len() ==> s[position(s, c)] == c,
        forall|j: int| 0 <= j < position(s, c) ==> s[j] != c,
{
    lemma_first_index(s, is_char(c));
}

/// The first `k` characters differ from `c`, and the text ends there or holds
/// `c` there: then `k` is the position of `c`.
pub proof fn lemma_position_is(s: Seq<char>, c: char, k: int)
    requires
        0 <= k <= s.len(),
        forall|j: int| 0 <= j < k ==> s[j] != c,
        k < s.len() ==> s[k] == c,
    ensures
        position(s, c) == k,
{
    lemma_first_index_is(s, is_char(c), k);
}

/// The decimal numeral of a number stands for that number, and it begins with
/// `0` only where the number is zero.
pub proof fn lemma_decimal_value(n: nat)
    ensures
        numeral_value(decimal(n)) == n,
        decimal(n).len() >= 1,
        decimal(n)[0] == '0' <==> n == 0,
    decreases n,
{
    reveal_strlit("0123456789");
    let d = n % 10;
    assert(position("0123456789"@, digit(d)) == d) by {
        lemma_position_is("0123456789"@, digit(d), d as int);
    }
    if n < 10 {
        assert(decimal(n).drop_last() =~= Seq::<char>::empty());
        assert(numeral_value(decimal(n).drop_last()) == 0);
    } else {
        lemma_decimal_value(n / 10);
        assert(decimal(n).drop_last() =~= decimal(n / 10));
        assert(decimal(n)[0] == decimal(n / 10)[0]);
    }
}

/// Joining with one more part in front puts that part and a separator before
/// the rest.
pub proof fn lemma_join_front(first: Seq<char>, rest: Seq<Seq<char>>, sep: Seq<char>)
    requires
        rest.len() >= 1,
    ensures
        join(seq![first] + rest, sep) == first + sep + join(rest, sep),
    decreases rest.len(),
{
    let all = seq![first] + rest;
    assert(all.drop_last() == seq![first] + rest.drop_last());
    assert(all.last() == rest.last());
    if rest.len() == 1 {
        assert(all.drop_last() == seq![first]);
        assert(join(all.drop_last(), sep) == first);
        assert(join(rest, sep) == rest[0]);
    } else {
        lemma_join_front(first, rest.drop_last(), sep);
        assert(first + sep + join(rest.drop_last(), sep) + sep + rest.last() == first + sep + (join(
            rest.drop_last(),
            sep,
        ) + sep + rest.last()));
    }
}

/// No piece of a split holds the separator, and joining the pieces with the
/// separator gives the text back.
pub proof fn lemma_split_join(s: Seq<char>, sep: char)
    ensures
        split(s, sep).len() >= 1,
        forall|i: int|
            0 <= i < split(s, sep).len() ==> !(#[trigger] split(s, sep)[i]).contains(sep),
        join(split(s, sep), seq![sep]) == s,
    decreases s.len(),
{
    lemma_position_bounds(s, sep);
    let i = position(s, sep);
    if i < s.len() {
        let rest = s.skip(i + 1);
        lemma_split_join(rest, sep);
        let pieces = split(s, sep);
        assert(pieces.drop_first() == split(rest, sep));
        assert(pieces[0] == s.take(i));
        assert forall|k: int| 0 <= k < pieces.len() implies !(#[trigger] pieces[k]).contains(
            sep,
        ) by {
            if k == 0 {
            } else {
                assert(pieces[k] == split(rest, sep)[k - 1]);
            }
        }
        lemma_join_front(s.take(i), split(rest, sep), seq![sep]);
        assert(s.take(i) + seq![sep] + rest == s);
    } else {
        assert(!s.contains(sep));
    }
}

/// A text splits into two pieces at least exactly where it holds the
/// separator.
pub proof fn lemma_split_has_two(s: Seq<char>, sep: char)
    ensures
        s.contains(sep) <==> split(s, sep).len() >= 2,
{
    lemma_position_bounds(s, sep);
    let i = position(s, sep);
    if i < s.len() {
        assert(s.contains(sep));
        lemma_split_join(s.skip(i + 1), sep);
    } else {
        assert(!s.contains(sep));
    }
}

/// The characters of a string, one by one.
pub fn to_chars(s: &str) -> (v: Vec<char>)
    ensures
        v@ == s@,
{
    let mut v: Vec<char> = Vec::new();
    for c in it: s.chars()
        invariant
            v@ == it.seq().take(it.index() as int),
            it.seq() == s@,
    {
        v.push(c);
    }
    v
}

/// The string that holds the given characters.
pub fn from_chars(cs: &Vec<char>) -> (s: String)
    ensures
        s@ == cs@,
{
    let mut s = String::new();
    let mut i: usize = 0;
    while i < cs.len()
        invariant
            i <= cs.len(),
            s@ == cs@.take(i as int),
        decreases cs.len() - i,
    {
        s.push(cs[i]);
        i += 1;
    }
    s
}

/// Appends the characters to the string.
pub fn push_chars(out: &mut String, cs: &Vec<char>)
    ensures
        final(out)@ == old(out)@ + cs@,
{
    let mut i: usize = 0;
    while i < cs.len()
        invariant
            i <= cs.len(),
            out@ == old(out)@ + cs@.take(i as int),
        decreases cs.len() - i,
    {
        out.push(cs[i]);
        i += 1;
    }
}

/// Whether two strings hold the same characters.
pub fn same_text(a: &str, b: &str) -> (r: bool)
    ensures
        r == (a@ == b@),
{
    let x = to_chars(a);
    let y = to_chars(b);
    if x.len() != y.len() {
        return false;
    }
    let mut i: usize = 0;
    while i < x.len()
        invariant
            i <= x.len(),
            x.len() == y.len(),
            x@ == a@,
            y@ == b@,
            x@.take(i as int) == y@.take(i as int),
        decreases x.len() - i,
    {
        if x[i] != y[i] {
            assert(x@[i as int] != y@[i as int]);
            return false;
        }
        assert(x@.take(i + 1) == x@.take(i as int).push(x@[i as int]));
        assert(y@.take(i + 1) == y@.take(i as int).push(y@[i as int]));
        i += 1;
    }
    assert(x@.take(x.len() as int) == x@);
    assert(y@.take(y.len() as int) == y@);
    true
}

/// Cuts the characters at the first `c`, which belongs to neither part.
pub fn cut_once(s: &Vec<char>, c: char) -> (r: (Vec<char>, Vec<char>))
    ensures
        r.0@ == before(s@, c),
        r.1@ == after(s@, c),
{
    let mut head: Vec<char> = Vec::new();
    let mut tail: Vec<char> = Vec::new();
    let mut i: usize = 0;
    while i < s.len() && s[i] != c
        invariant
            i <= s.len(),
            head@ == s@.take(i as int),
            forall|j: int| 0 <= j < i ==> s@[j] != c,
        decreases s.len() - i,
    {
        head.push(s[i]);
        assert(s@.take(i + 1) == s@.take(i as int).push(s@[i as int]));
        i += 1;
    }
    proof {
        lemma_position_is(s@, c, i as int);
    }
    if i < s.len() {
        let mut j: usize = i + 1;
        while j < s.len()
            invariant
                i < j <= s.len(),
                tail@ == s@.subrange(i + 1, j as int),
            decreases s.len() - j,
        {
            tail.push(s[j]);
            j += 1;
        }
        assert(s@.subrange(i + 1, s.len() as int) == s@.skip(i + 1));
    }
    (head, tail)
}

/// Cuts the characters at every `sep`.
pub fn split_chars(s: &Vec<char>, sep: char) -> (pieces: Vec<Vec<char>>)
    ensures
        views(pieces@) == split(s@, sep),
{
    let mut pieces: Vec<Vec<char>> = Vec::new();
    let mut cur: Vec<char> = Vec::new();
    let mut i: usize = 0;
    let ghost mut start: int = 0;
    assert(s@.skip(0) == s@);
    assert(views(pieces@) + split(s@, sep) == split(s@, sep));
    while i < s.len()
        invariant
            0 <= start <= i <= s.len(),
            cur@ == s@.subrange(start, i as int),
            forall|j: int| start <= j < i ==> s@[j] != sep,
            split(s@, sep) == views(pieces@) + split(s@.skip(start), sep),
        decreases s.len() - i,
    {
        let c = s[i];
        if c == sep {
            proof {
                let tail = s@.skip(start);
                lemma_position_is(tail, sep, i - start);
                assert(tail.take(i - start) == cur@);
                assert(tail.skip(i - start + 1) == s@.skip(i + 1));
                assert(views(pieces@).push(cur@) + split(s@.skip(i + 1), sep)
                    == views(pieces@) + split(tail, sep));
            }
            let ghost before = views(pieces@);
            pieces.push(cur);
            proof {
                assert(views(pieces@) == before.push(cur@));
                start = i + 1;
            }
            cur = Vec::new();
        } else {
            cur.push(c);
        }
        i += 1;
    }
    proof {
        let tail = s@.skip(start);
        lemma_position_is(tail, sep, tail.len() as int);
        assert(tail == cur@);
    }
    let ghost before = views(pieces@);
    pieces.push(cur);
    assert(views(pieces@) == before.push(cur@));
    pieces
}

/// Cuts the characters into words at white space.
pub fn split_words(s: &Vec<char>) -> (ws: Vec<Vec<char>>)
    ensures
        views(ws@) == words(s@),
{
    let mut ws: Vec<Vec<char>> = Vec::new();
    let mut i: usize = 0;
    assert(s@.skip(0) == s@);
    assert(views(ws@) + words(s@) == words(s@));
    while i < s.len()
        invariant
            i <= s.len(),
            words(s@) == views(ws@) + words(s@.skip(i as int)),
        decreases s.len() - i,
    {
        let ghost tail = s@.skip(i as int);
        if s[i].is_whitespace() {
            assert(tail.drop_first() == s@.skip(i + 1));
            i += 1;
        } else {
            let mut cur: Vec<char> = Vec::new();
            let mut j: usize = i;
            while j < s.len() && !s[j].is_whitespace()
                invariant
                    i <= j <= s.len(),
                    cur@ == s@.subrange(i as int, j as int),
                    word_len(tail) == (j - i) + word_len(s@.skip(j as int)),
                    tail == s@.skip(i as int),
                decreases s.len() - j,
            {
                assert(s@.skip(j as int).drop_first() == s@.skip(j + 1));
                assert(s@.subrange(i as int, j + 1) == s@.subrange(i as int, j as int).push(
                    s@[j as int],
                ));
                cur.push(s[j]);
                j += 1;
            }
            proof {
                assert(word_len(tail) == j - i);
                assert(tail.take(j - i) == cur@);
                assert(tail.skip(j - i) == s@.skip(j as int));
                assert(views(ws@).push(cur@) + words(s@.skip(j as int)) == views(ws@)
                    + words(tail));
            }
            let ghost before = views(ws@);
            ws.push(cur);
            assert(views(ws@) == before.push(cur@));
            i = j;
        }
    }
    assert(s@.skip(i as int).len() == 0);
    ws
}

/// The character of a digit.
fn digit_char(d: u64) -> (c: char)
    requires
        d < 10,
    ensures
        c == digit(d as nat),
{
    proof {
        reveal_strlit("0123456789");
    }
    "0123456789".get_char(d as usize)
}

/// The digits of the decimal numeral of `n`.
pub fn decimal_chars(n: u64) -> (v: Vec<char>)
    ensures
        v@ == decimal(n as nat),
    decreases n,
{
    if n < 10 {
        let mut v: Vec<char> = Vec::new();
        v.push(digit_char(n));
        v
    } else {
        let mut v = decimal_chars(n / 10);
        v.push(digit_char(n % 10));
        v
    }
}

/// Appends the decimal numeral of `n` to the string.
pub fn push_decimal(out: &mut String, n: u64)
    ensures
        final(out)@ == old(out)@ + decimal(n as nat),
{
    let digits = decimal_chars(n);
    push_chars(out, &digits);
}

} // verus!
