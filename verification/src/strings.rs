//! Conversions between strings and character sequences, and comparisons of both.

use itertools::Itertools;
use vstd::prelude::*;
use crate::text::{lemma_skip_whitespace, lemma_word_end, skip_spaces, skip_word, words, words_from};
use vstd::utf8::encode_utf8;
use vstd::utf8::encode_utf8_decode_utf8;

verus! {

/// The characters of `s`, in order.
///
/// Trusted: `Itertools::collect_vec` gathers what an iterator yields into a
/// vector, in the order of the iteration; the iterator is `str::chars`, which
/// yields the characters of the string from first to last.
#[verifier::external_body]
pub(crate) fn chars_of(s: &str) -> (chars: Vec<char>)
    ensures
        chars@ == s@,
{
    s.chars().collect_vec()
}

/// Appends one character to `s`.
///
/// Trusted: `String::push` appends the given character to the end of the string.
#[verifier::external_body]
pub(crate) fn push_char(s: &mut String, c: char)
    ensures
        final(s)@ == old(s)@.push(c),
{
    s.push(c)
}

/// The string that holds the characters `chars[from..to]`.
pub fn string_of(chars: &[char], from: usize, to: usize) -> (s: String)
    requires
        from <= to <= chars@.len(),
    ensures
        s@ == chars@.subrange(from as int, to as int),
{
    let mut s = String::new();
    let mut i: usize = from;
    while i < to
        invariant
            from <= i <= to <= chars@.len(),
            s@ == chars@.subrange(from as int, i as int),
        decreases to - i,
    {
        push_char(&mut s, chars[i]);
        assert(chars@.subrange(from as int, i as int).push(chars@[i as int]) =~= chars@.subrange(
            from as int,
            i + 1,
        ));
        i += 1;
    }
    s
}

/// Tells whether two character sequences are the same.
pub fn chars_eq(a: &[char], b: &[char]) -> (same: bool)
    ensures
        same == (a@ == b@),
{
    if a.len() != b.len() {
        return false;
    }
    let mut i: usize = 0;
    while i < a.len()
        invariant
            i <= a@.len(),
            a@.len() == b@.len(),
            forall|j: int| 0 <= j < i ==> a@[j] == b@[j],
        decreases a@.len() - i,
    {
        if a[i] != b[i] {
            return false;
        }
        i += 1;
    }
    assert(a@ =~= b@);
    true
}

/// `s` begins with `prefix`.
pub open spec fn has_prefix(s: Seq<char>, prefix: Seq<char>) -> bool {
    prefix.len() <= s.len() && s.subrange(0, prefix.len() as int) == prefix
}

/// What follows `prefix` in `s`; all of `s` where it does not begin with `prefix`.
pub open spec fn after_prefix(s: Seq<char>, prefix: Seq<char>) -> Seq<char> {
    if has_prefix(s, prefix) {
        s.skip(prefix.len() as int)
    } else {
        s
    }
}

/// Tells whether `s` begins with `prefix`.
pub fn starts_with(s: &[char], prefix: &[char]) -> (yes: bool)
    ensures
        yes == has_prefix(s@, prefix@),
{
    if prefix.len() > s.len() {
        return false;
    }
    let mut i: usize = 0;
    while i < prefix.len()
        invariant
            i <= prefix@.len() <= s@.len(),
            forall|j: int| 0 <= j < i ==> s@[j] == prefix@[j],
        decreases prefix@.len() - i,
    {
        if s[i] != prefix[i] {
            assert(s@.subrange(0, prefix@.len() as int)[i as int] != prefix@[i as int]);
            return false;
        }
        i += 1;
    }
    assert(s@.subrange(0, prefix@.len() as int) =~= prefix@);
    true
}

/// Tells whether two strings hold the same text.
pub fn str_eq(a: &str, b: &str) -> (same: bool)
    ensures
        same == (a@ == b@),
{
    let x = a.as_bytes();
    let y = b.as_bytes();
    proof {
        encode_utf8_decode_utf8(a@);
        encode_utf8_decode_utf8(b@);
    }
    if x.len() != y.len() {
        return false;
    }
    let mut i: usize = 0;
    while i < x.len()
        invariant
            i <= x@.len(),
            x@.len() == y@.len(),
            x@ == encode_utf8(a@),
            y@ == encode_utf8(b@),
            forall|j: int| 0 <= j < i ==> x@[j] == y@[j],
        decreases x@.len() - i,
    {
        if x[i] != y[i] {
            return false;
        }
        i += 1;
    }
    assert(x@ =~= y@);
    true
}

/// The texts of a sequence of strings.
pub open spec fn texts(v: Seq<String>) -> Seq<Seq<char>> {
    Seq::new(v.len(), |i: int| v[i]@)
}

/// Splits `s` into its words.
pub fn split_words(s: &[char]) -> (out: Vec<String>)
    ensures
        texts(out@) == words(s@),
{
    let mut out: Vec<String> = Vec::new();
    let mut at: usize = 0;
    assert(texts(out@) + words_from(s@, 0) =~= words(s@));
    loop
        invariant
            at <= s@.len(),
            texts(out@) + words_from(s@, at as int) == words(s@),
        ensures
            texts(out@) == words(s@),
        decreases s@.len() - at,
    {
        let start = skip_spaces(s, at);
        if start >= s.len() {
            assert(texts(out@) + Seq::<Seq<char>>::empty() =~= texts(out@));
            break ;
        }
        proof {
            lemma_skip_whitespace(s@, at as int);
            lemma_word_end(s@, start as int);
        }
        let end = skip_word(s, start);
        let word = string_of(s, start, end);
        let ghost before = texts(out@);
        out.push(word);
        assert(texts(out@) =~= before + seq![s@.subrange(start as int, end as int)]);
        assert(texts(out@) + words_from(s@, end as int) =~= before + (seq![
            s@.subrange(start as int, end as int),
        ] + words_from(s@, end as int)));
        at = end;
    }
    out
}

/// The texts of `parts` put one after the other, with `separator` between each two.
pub open spec fn joined(parts: Seq<Seq<char>>, separator: Seq<char>) -> Seq<char>
    decreases parts.len(),
{
    if parts.len() == 0 {
        Seq::<char>::empty()
    } else if parts.len() == 1 {
        parts[0]
    } else {
        joined(parts.drop_last(), separator) + separator + parts.last()
    }
}

/// Joins `parts` with `separator` between each two of them.
///
/// Trusted: `Itertools::join` writes out the first item, then, for every
/// further item, the separator and the item; of no item it makes the empty
/// string. An item that is a string is written as its own text.
#[verifier::external_body]
pub(crate) fn join(parts: &Vec<String>, separator: &str) -> (text: String)
    ensures
        text@ == joined(texts(parts@), separator@),
{
    parts.iter().join(separator)
}

/// The number of bytes that `text` takes in UTF-8.
pub open spec fn byte_length(text: Seq<char>) -> nat {
    encode_utf8(text).len()
}

/// `needle` stands in `hay` at the index `at`.
pub open spec fn occurs_at(hay: Seq<char>, needle: Seq<char>, at: int) -> bool {
    0 <= at && at + needle.len() <= hay.len() && hay.subrange(at, at + needle.len()) == needle
}

/// `needle` stands somewhere in `hay`.
pub open spec fn occurs(hay: Seq<char>, needle: Seq<char>) -> bool {
    exists|at: int| occurs_at(hay, needle, at)
}

/// What stands in a text stands in that text with more before and after it.
pub proof fn lemma_occurs_within(
    before: Seq<char>,
    hay: Seq<char>,
    after: Seq<char>,
    needle: Seq<char>,
)
    requires
        occurs(hay, needle),
    ensures
        occurs(before + hay + after, needle),
{
    let at = choose|at: int| occurs_at(hay, needle, at);
    let whole = before + hay + after;
    assert(whole.subrange(before.len() + at, before.len() + at + needle.len()) =~= hay.subrange(
        at,
        at + needle.len(),
    ));
    assert(occurs_at(whole, needle, before.len() + at));
}

} // verus!
