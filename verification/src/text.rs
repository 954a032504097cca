//! Character-level scanning: whitespace, lines, words and trimming.

use vstd::prelude::*;

verus! {

/// The characters with the Unicode property `White_Space`.
pub open spec fn is_whitespace(c: char) -> bool {
    ||| ('\u{9}' <= c && c <= '\u{d}')
    ||| c == ' '
    ||| c == '\u{85}'
    ||| c == '\u{a0}'
    ||| c == '\u{1680}'
    ||| ('\u{2000}' <= c && c <= '\u{200a}')
    ||| c == '\u{2028}'
    ||| c == '\u{2029}'
    ||| c == '\u{202f}'
    ||| c == '\u{205f}'
    ||| c == '\u{3000}'
}

/// Tells whether `c` is a whitespace character.
pub fn char_is_whitespace(c: char) -> (b: bool)
    ensures
        b == is_whitespace(c),
{
    ('\u{9}' <= c && c <= '\u{d}') || c == ' ' || c == '\u{85}' || c == '\u{a0}' || c == '\u{1680}'
        || ('\u{2000}' <= c && c <= '\u{200a}') || c == '\u{2028}' || c == '\u{2029}' || c
        == '\u{202f}' || c == '\u{205f}' || c == '\u{3000}'
}

/// The first index at or after `from` at which `s` holds `c`; `s.len()` if there is none.
pub open spec fn find_char(s: Seq<char>, c: char, from: int) -> int
    decreases s.len() - from,
{
    if from < 0 || from >= s.len() {
        s.len() as int
    } else if s[from] == c {
        from
    } else {
        find_char(s, c, from + 1)
    }
}

/// `find_char` stays within `from ..= s.len()`, stops on `c`, and passes over nothing equal to `c`.
pub proof fn lemma_find_char(s: Seq<char>, c: char, from: int)
    requires
        0 <= from <= s.len(),
    ensures
        from <= find_char(s, c, from) <= s.len(),
        find_char(s, c, from) < s.len() ==> s[find_char(s, c, from)] == c,
        forall|i: int| from <= i < find_char(s, c, from) ==> s[i] != c,
    decreases s.len() - from,
{
    if from < s.len() && s[from] != c {
        lemma_find_char(s, c, from + 1);
    }
}

/// Finds the first `c` in `s` at or after `from`.
pub fn find(s: &[char], c: char, from: usize) -> (at: usize)
    requires
        from <= s@.len(),
    ensures
        at == find_char(s@, c, from as int),
{
    let mut i: usize = from;
    while i < s.len() && s[i] != c
        invariant
            from <= i <= s@.len(),
            find_char(s@, c, from as int) == find_char(s@, c, i as int),
        decreases s@.len() - i,
    {
        i += 1;
    }
    i
}

/// The first index at or after `from` that holds no whitespace; `s.len()` if there is none.
pub open spec fn skip_whitespace(s: Seq<char>, from: int) -> int
    decreases s.len() - from,
{
    if from < 0 || from >= s.len() {
        s.len() as int
    } else if !is_whitespace(s[from]) {
        from
    } else {
        skip_whitespace(s, from + 1)
    }
}

/// The first index at or after `from` that holds whitespace; `s.len()` if there is none.
pub open spec fn word_end(s: Seq<char>, from: int) -> int
    decreases s.len() - from,
{
    if from < 0 || from >= s.len() {
        s.len() as int
    } else if is_whitespace(s[from]) {
        from
    } else {
        word_end(s, from + 1)
    }
}

/// The least index at or below `to` with nothing but whitespace between it and `to`.
pub open spec fn trim_end(s: Seq<char>, to: int) -> int
    decreases to,
{
    if to <= 0 || to > s.len() {
        0
    } else if !is_whitespace(s[to - 1]) {
        to
    } else {
        trim_end(s, to - 1)
    }
}

/// Bounds of `skip_whitespace`, and what it stops on.
pub proof fn lemma_skip_whitespace(s: Seq<char>, from: int)
    requires
        0 <= from <= s.len(),
    ensures
        from <= skip_whitespace(s, from) <= s.len(),
        skip_whitespace(s, from) < s.len() ==> !is_whitespace(s[skip_whitespace(s, from)]),
        forall|i: int| from <= i < skip_whitespace(s, from) ==> is_whitespace(s[i]),
    decreases s.len() - from,
{
    if from < s.len() && is_whitespace(s[from]) {
        lemma_skip_whitespace(s, from + 1);
    }
}

/// Bounds of `word_end`, and what it stops on.
pub proof fn lemma_word_end(s: Seq<char>, from: int)
    requires
        0 <= from <= s.len(),
    ensures
        from <= word_end(s, from) <= s.len(),
        word_end(s, from) < s.len() ==> is_whitespace(s[word_end(s, from)]),
        forall|i: int| from <= i < word_end(s, from) ==> !is_whitespace(s[i]),
        from < s.len() && !is_whitespace(s[from]) ==> from < word_end(s, from),
    decreases s.len() - from,
{
    if from < s.len() && !is_whitespace(s[from]) {
        lemma_word_end(s, from + 1);
    }
}

/// Bounds of `trim_end`, and what it stops on.
pub proof fn lemma_trim_end(s: Seq<char>, to: int)
    requires
        0 <= to <= s.len(),
    ensures
        0 <= trim_end(s, to) <= to,
        trim_end(s, to) > 0 ==> !is_whitespace(s[trim_end(s, to) - 1]),
        forall|i: int| trim_end(s, to) <= i < to ==> is_whitespace(s[i]),
    decreases to,
{
    if to > 0 && is_whitespace(s[to - 1]) {
        lemma_trim_end(s, to - 1);
    }
}

/// `s` without the whitespace at its two ends.
pub open spec fn trimmed(s: Seq<char>) -> Seq<char> {
    let start = skip_whitespace(s, 0);
    let end = trim_end(s, s.len() as int);
    if start < end {
        s.subrange(start, end)
    } else {
        Seq::<char>::empty()
    }
}

/// What is left after trimming is empty, or begins and ends with a
/// character that is no whitespace.
pub proof fn lemma_trimmed_ends(s: Seq<char>)
    ensures
        trimmed(s).len() > 0 ==> !is_whitespace(trimmed(s).first()) && !is_whitespace(
            trimmed(s).last(),
        ),
        trimmed(s).len() == 0 ==> forall|i: int| 0 <= i < s.len() ==> is_whitespace(s[i]),
{
    lemma_skip_whitespace(s, 0);
    lemma_trim_end(s, s.len() as int);
}

/// Skips the whitespace of `s` from `from` on.
pub fn skip_spaces(s: &[char], from: usize) -> (at: usize)
    requires
        from <= s@.len(),
    ensures
        at == skip_whitespace(s@, from as int),
        from <= at <= s@.len(),
{
    let mut i: usize = from;
    while i < s.len() && char_is_whitespace(s[i])
        invariant
            from <= i <= s@.len(),
            skip_whitespace(s@, from as int) == skip_whitespace(s@, i as int),
        decreases s@.len() - i,
    {
        i += 1;
    }
    i
}

/// Skips what is not whitespace in `s` from `from` on.
pub fn skip_word(s: &[char], from: usize) -> (at: usize)
    requires
        from <= s@.len(),
    ensures
        at == word_end(s@, from as int),
        from <= at <= s@.len(),
{
    let mut i: usize = from;
    while i < s.len() && !char_is_whitespace(s[i])
        invariant
            from <= i <= s@.len(),
            word_end(s@, from as int) == word_end(s@, i as int),
        decreases s@.len() - i,
    {
        i += 1;
    }
    i
}

/// Steps back from `to` over the whitespace before it.
pub fn skip_spaces_back(s: &[char], to: usize) -> (at: usize)
    requires
        to <= s@.len(),
    ensures
        at == trim_end(s@, to as int),
        at <= to,
{
    let mut i: usize = to;
    while i > 0 && char_is_whitespace(s[i - 1])
        invariant
            i <= to <= s@.len(),
            trim_end(s@, to as int) == trim_end(s@, i as int),
        decreases i,
    {
        i -= 1;
    }
    i
}

/// Trims the whitespace at both ends of `s`, and returns the bounds of what is left.
pub fn trim_bounds(s: &[char]) -> (bounds: (usize, usize))
    ensures
        bounds.0 <= bounds.1 <= s@.len(),
        s@.subrange(bounds.0 as int, bounds.1 as int) == trimmed(s@),
{
    let start = skip_spaces(s, 0);
    let end = skip_spaces_back(s, s.len());
    if start < end {
        (start, end)
    } else {
        assert(s@.subrange(0, 0) =~= Seq::<char>::empty());
        (0, 0)
    }
}

/// The words of `s` from `from` on: the maximal runs of characters that are not whitespace.
pub open spec fn words_from(s: Seq<char>, from: int) -> Seq<Seq<char>>
    decreases s.len() - from,
    via words_from_decreases
{
    let start = skip_whitespace(s, from);
    if from < 0 || start >= s.len() {
        Seq::<Seq<char>>::empty()
    } else {
        seq![s.subrange(start, word_end(s, start))] + words_from(s, word_end(s, start))
    }
}

#[via_fn]
proof fn words_from_decreases(s: Seq<char>, from: int) {
    if 0 <= from <= s.len() {
        lemma_skip_whitespace(s, from);
        let start = skip_whitespace(s, from);
        if start < s.len() {
            lemma_word_end(s, start);
        }
    }
}

/// The words of `s`.
pub open spec fn words(s: Seq<char>) -> Seq<Seq<char>> {
    words_from(s, 0)
}

/// Every word is non-empty and free of whitespace.
pub proof fn lemma_words_are_solid(s: Seq<char>, from: int)
    requires
        0 <= from <= s.len(),
    ensures
        forall|k: int|
            0 <= k < words_from(s, from).len() ==> (#[trigger] words_from(s, from)[k]).len() > 0
                && forall|i: int|
                0 <= i < words_from(s, from)[k].len() ==> !is_whitespace(words_from(s, from)[k][i]),
    decreases s.len() - from,
{
    lemma_skip_whitespace(s, from);
    let start = skip_whitespace(s, from);
    if start < s.len() {
        lemma_word_end(s, start);
        let end = word_end(s, start);
        lemma_words_are_solid(s, end);
        let first = s.subrange(start, end);
        let rest = words_from(s, end);
        assert(words_from(s, from) == seq![first] + rest);
        assert forall|k: int| 0 <= k < words_from(s, from).len() implies (#[trigger] words_from(
            s,
            from,
        )[k]).len() > 0 && forall|i: int|
            0 <= i < words_from(s, from)[k].len() ==> !is_whitespace(words_from(s, from)[k][i]) by {
            if k > 0 {
                assert(words_from(s, from)[k] == rest[k - 1]);
            }
        }
    }
}

/// Where the text of the line that starts at `from` ends: at its line feed, or
/// at the carriage return just before that line feed, or at the end of `s`.
pub open spec fn line_text_end(s: Seq<char>, from: int) -> int {
    let feed = find_char(s, '\n', from);
    if feed < s.len() && from < feed && s[feed - 1] == '\r' {
        feed - 1
    } else {
        feed
    }
}

/// The line of `s` that starts at `from`, without its terminator.
pub open spec fn line_at(s: Seq<char>, from: int) -> Seq<char> {
    s.subrange(from, line_text_end(s, from))
}

/// Where the line after the one that starts at `from` begins.
pub open spec fn next_line(s: Seq<char>, from: int) -> int {
    let feed = find_char(s, '\n', from);
    if feed < s.len() {
        feed + 1
    } else {
        feed
    }
}

/// The lines of `s` from `from` on. A line ends with a line feed, or with a
/// carriage return and a line feed; the last line needs no terminator.
pub open spec fn lines_from(s: Seq<char>, from: int) -> Seq<Seq<char>>
    decreases s.len() - from,
    via lines_from_decreases
{
    if from < 0 || from >= s.len() {
        Seq::<Seq<char>>::empty()
    } else {
        seq![line_at(s, from)] + lines_from(s, next_line(s, from))
    }
}

#[via_fn]
proof fn lines_from_decreases(s: Seq<char>, from: int) {
    if 0 <= from < s.len() {
        lemma_find_char(s, '\n', from);
    }
}

/// The lines of `s`.
pub open spec fn lines(s: Seq<char>) -> Seq<Seq<char>> {
    lines_from(s, 0)
}

/// Bounds of a line and of the start of the next one.
pub proof fn lemma_line_bounds(s: Seq<char>, from: int)
    requires
        0 <= from <= s.len(),
    ensures
        from <= line_text_end(s, from) <= next_line(s, from) <= s.len(),
        from < s.len() ==> from < next_line(s, from),
{
    lemma_find_char(s, '\n', from);
}

/// Reads the line of `s` that starts at `from`: returns where its text ends
/// and where the next line starts.
pub fn read_line(s: &[char], from: usize) -> (bounds: (usize, usize))
    requires
        from <= s@.len(),
    ensures
        bounds.0 == line_text_end(s@, from as int),
        bounds.1 == next_line(s@, from as int),
        from <= bounds.0 <= bounds.1 <= s@.len(),
        from < s@.len() ==> from < bounds.1,
{
    proof {
        lemma_line_bounds(s@, from as int);
    }
    let feed = find(s, '\n', from);
    if feed < s.len() {
        if from < feed && s[feed - 1] == '\r' {
            (feed - 1, feed + 1)
        } else {
            (feed, feed + 1)
        }
    } else {
        (feed, feed)
    }
}

} // verus!
