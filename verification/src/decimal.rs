//! Decimal numerals: writing a number out and reading one back.

use crate::strings::push_char;
use vstd::prelude::*;

verus! {

/// The ten decimal digits.
pub open spec fn is_digit(c: char) -> bool {
    '0' <= c && c <= '9'
}

/// The value of a decimal digit.
pub open spec fn digit_value(c: char) -> nat {
    (c as u32 - '0' as u32) as nat
}

/// The digit that stands for `d`, for `d` below ten.
pub open spec fn digit_char(d: nat) -> char {
    (d + '0' as u32) as u8 as char
}

/// The decimal numeral of `n`, without leading zeros.
pub open spec fn decimal(n: nat) -> Seq<char>
    decreases n,
{
    if n < 10 {
        seq![digit_char(n)]
    } else {
        decimal(n / 10).push(digit_char(n % 10))
    }
}

/// The number that a sequence of digits stands for; 0 for the empty sequence.
pub open spec fn decimal_value(s: Seq<char>) -> nat
    decreases s.len(),
{
    if s.len() == 0 {
        0
    } else {
        decimal_value(s.drop_last()) * 10 + digit_value(s.last())
    }
}

/// Every character of `s` is a decimal digit.
pub open spec fn all_digits(s: Seq<char>) -> bool {
    forall|i: int| 0 <= i < s.len() ==> is_digit(#[trigger] s[i])
}

/// The digits of a numeral: what follows an optional leading plus sign.
pub open spec fn unsigned_part(s: Seq<char>) -> Seq<char> {
    if s.len() > 0 && s[0] == '+' {
        s.skip(1)
    } else {
        s
    }
}

/// The number that `s` denotes: an optional plus sign, then one or more
/// decimal digits, with a value that a `usize` can hold. `None` for any other text.
pub open spec fn parsed_usize(s: Seq<char>) -> Option<usize> {
    let digits = unsigned_part(s);
    if digits.len() > 0 && all_digits(digits) && decimal_value(digits) <= usize::MAX {
        Some(decimal_value(digits) as usize)
    } else {
        None
    }
}

/// A digit and its value determine each other.
pub proof fn lemma_digit_round_trip(d: nat)
    requires
        d < 10,
    ensures
        is_digit(digit_char(d)),
        digit_value(digit_char(d)) == d,
{
}

/// A numeral is made of digits, is not empty, and stands for its number.
pub proof fn lemma_decimal_value(n: nat)
    ensures
        decimal(n).len() > 0,
        all_digits(decimal(n)),
        decimal_value(decimal(n)) == n,
        decimal(n)[0] != '+',
    decreases n,
{
    if n < 10 {
        lemma_digit_round_trip(n);
        assert(decimal(n).drop_last() =~= Seq::<char>::empty());
        assert(decimal_value(Seq::<char>::empty()) == 0);
        assert(decimal(n).last() == digit_char(n));
    } else {
        lemma_decimal_value(n / 10);
        lemma_digit_round_trip(n % 10);
        assert(decimal(n).drop_last() =~= decimal(n / 10));
        assert(decimal(n).last() == digit_char(n % 10));
    }
}

/// Reading back the numeral of a number gives that number.
pub proof fn lemma_parse_decimal(n: usize)
    ensures
        parsed_usize(decimal(n as nat)) == Some(n),
{
    lemma_decimal_value(n as nat);
}

/// The value of a sequence of digits is at least that of each of its prefixes.
pub proof fn lemma_decimal_value_grows(s: Seq<char>, k: int)
    requires
        0 <= k <= s.len(),
    ensures
        decimal_value(s.take(k)) <= decimal_value(s),
    decreases s.len() - k,
{
    if k == s.len() {
        assert(s.take(k) =~= s);
    } else {
        lemma_decimal_value_grows(s.drop_last(), k);
        assert(s.drop_last().take(k) =~= s.take(k));
    }
}

/// Tells whether `c` is a decimal digit.
pub fn char_is_digit(c: char) -> (b: bool)
    ensures
        b == is_digit(c),
{
    '0' <= c && c <= '9'
}

/// Writes `n` as a decimal numeral.
pub fn decimal_string(n: usize) -> (s: String)
    ensures
        s@ == decimal(n as nat),
{
    let mut low_first: Vec<char> = Vec::new();
    let mut rest: usize = n;
    assert(decimal(n as nat) =~= decimal(rest as nat) + low_first@.reverse());
    while rest >= 10
        invariant
            decimal(n as nat) == decimal(rest as nat) + low_first@.reverse(),
        decreases rest,
    {
        let digit = ((rest % 10) as u8 + 48u8) as char;
        assert(digit == digit_char((rest % 10) as nat));
        let ghost before = low_first@;
        low_first.push(digit);
        assert(low_first@.reverse() =~= seq![digit] + before.reverse());
        assert(decimal((rest / 10) as nat) + low_first@.reverse() =~= decimal(
            (rest / 10) as nat,
        ).push(digit) + before.reverse());
        rest = rest / 10;
    }
    let digit = (rest as u8 + 48u8) as char;
    assert(digit == digit_char(rest as nat));
    let ghost before = low_first@;
    low_first.push(digit);
    assert(low_first@.reverse() =~= seq![digit] + before.reverse());
    assert(decimal(n as nat) =~= low_first@.reverse());

    let mut s = String::new();
    let mut i: usize = low_first.len();
    while i > 0
        invariant
            i <= low_first@.len(),
            s@ == low_first@.reverse().take(low_first@.len() - i),
        decreases i,
    {
        i -= 1;
        push_char(&mut s, low_first[i]);
        assert(low_first@.reverse().take(low_first@.len() - i) =~= low_first@.reverse().take(
            low_first@.len() - i - 1,
        ).push(low_first@[i as int]));
    }
    assert(low_first@.reverse().take(low_first@.len() as int) =~= low_first@.reverse());
    s
}

/// Reads a decimal numeral: an optional plus sign, then digits.
pub fn parse_usize(s: &[char]) -> (n: Option<usize>)
    ensures
        n == parsed_usize(s@),
{
    let start: usize = if s.len() > 0 && s[0] == '+' {
        1
    } else {
        0
    };
    let ghost digits = unsigned_part(s@);
    assert(digits =~= s@.skip(start as int));
    if start == s.len() {
        return None;
    }
    let mut value: usize = 0;
    let mut i: usize = start;
    assert(digits.take(0) =~= Seq::<char>::empty());
    while i < s.len()
        invariant
            start <= i <= s@.len(),
            start < s@.len(),
            digits == s@.skip(start as int),
            digits == unsigned_part(s@),
            all_digits(digits.take(i - start)),
            value == decimal_value(digits.take(i - start)),
        decreases s@.len() - i,
    {
        let c = s[i];
        let ghost upto = digits.take(i - start + 1);
        assert(upto.drop_last() =~= digits.take(i - start));
        assert(upto.last() == c);
        if !char_is_digit(c) {
            assert(!is_digit(digits[i - start]));
            return None;
        }
        let d: usize = (c as u32 - 48u32) as usize;
        assert(d == digit_value(c));
        if value > (usize::MAX - d) / 10 {
            proof {
                lemma_decimal_value_grows(digits, i - start + 1);
            }
            return None;
        }
        value = value * 10 + d;
        assert forall|j: int| 0 <= j < upto.len() implies is_digit(#[trigger] upto[j]) by {
            if j < upto.len() - 1 {
                assert(upto[j] == digits.take(i - start)[j]);
            }
        }
        i += 1;
    }
    assert(digits.take(i - start) =~= digits);
    Some(value)
}

} // verus!
