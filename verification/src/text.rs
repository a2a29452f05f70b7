//! Text helpers shared by the parsers and renderers: characters of a string,
//! and unsigned decimal numerals.

use vstd::prelude::*;
use vstd::std_specs::iter::IteratorSpec;

verus! {

/// Whether `c` is one of the ASCII digits `0` to `9`.
pub open spec fn is_digit(c: char) -> bool {
    '0' <= c <= '9'
}

/// The number that the ASCII digit `c` stands for.
pub open spec fn digit_value(c: char) -> nat {
    (c as u32 - '0' as u32) as nat
}

/// The ASCII digit that stands for `d`, where `d` is below ten.
pub open spec fn digit_char(d: nat) -> char {
    (d + '0' as u32) as char
}

/// The characters of `text`, in order.
pub fn chars_of(text: &str) -> (chars: Vec<char>)
    ensures
        chars@ == text@,
{
    let mut chars: Vec<char> = Vec::new();
    for c in it: text.chars()
        invariant
            chars@ == it.seq().take(it.index() as int),
    {
        chars.push(c);
    }
    chars
}

/// The ASCII digit for a number below ten.
pub fn digit_of(d: u8) -> (c: char)
    requires
        d < 10,
    ensures
        c == digit_char(d as nat),
        is_digit(c),
        digit_value(c) == d,
{
    (d + 48u8) as char
}

/// The decimal numeral of `n`: most significant digit first, no leading
/// zeros, and the single digit `0` for zero.
pub open spec fn decimal_digits(n: nat) -> Seq<char>
    decreases n,
{
    if n < 10 {
        seq![digit_char(n)]
    } else {
        decimal_digits(n / 10).push(digit_char(n % 10))
    }
}

/// Whether every character of `s` is an ASCII digit.
pub open spec fn all_digits(s: Seq<char>) -> bool {
    forall|i: int| 0 <= i < s.len() ==> is_digit(#[trigger] s[i])
}

/// The number that a run of ASCII digits denotes, read in base ten; leading
/// zeros are allowed and the empty run denotes zero.
pub open spec fn decimal_value(s: Seq<char>) -> nat
    decreases s.len(),
{
    if s.len() == 0 {
        0
    } else {
        decimal_value(s.drop_last()) * 10 + digit_value(s.last())
    }
}

/// What reading `s` as an unsigned decimal numeral no larger than `limit`
/// gives: the number, or nothing where `s` is empty, holds a character that
/// is no digit, or denotes more than `limit`.
pub open spec fn decimal_within(s: Seq<char>, limit: u64) -> Option<u64> {
    if s.len() > 0 && all_digits(s) && decimal_value(s) <= limit {
        Some(decimal_value(s) as u64)
    } else {
        None
    }
}

/// A numeral never denotes less than one of its prefixes.
pub proof fn lemma_decimal_value_prefix(s: Seq<char>, k: int)
    requires
        0 <= k <= s.len(),
    ensures
        decimal_value(s.take(k)) <= decimal_value(s),
    decreases s.len() - k,
{
    if k == s.len() {
        assert(s.take(k) =~= s);
    } else {
        lemma_decimal_value_prefix(s, k + 1);
        assert(s.take(k + 1).drop_last() =~= s.take(k));
    }
}

/// The numeral of a number is made of digits and denotes that number.
pub proof fn lemma_decimal_digits_value(n: nat)
    ensures
        decimal_digits(n).len() > 0,
        all_digits(decimal_digits(n)),
        decimal_value(decimal_digits(n)) == n,
    decreases n,
{
    if n < 10 {
        let s = decimal_digits(n);
        assert(s.drop_last() =~= Seq::<char>::empty());
        assert(decimal_value(s.drop_last()) == 0);
    } else {
        lemma_decimal_digits_value(n / 10);
        let s = decimal_digits(n);
        assert(s.drop_last() =~= decimal_digits(n / 10));
    }
}

/// Writes `n` as a decimal numeral.
pub fn decimal_chars(n: u64) -> (digits: Vec<char>)
    ensures
        digits@ == decimal_digits(n as nat),
    decreases n,
{
    if n < 10 {
        let mut digits: Vec<char> = Vec::new();
        digits.push(digit_of(n as u8));
        assert(digits@ =~= decimal_digits(n as nat));
        digits
    } else {
        let mut digits = decimal_chars(n / 10);
        digits.push(digit_of((n % 10) as u8));
        digits
    }
}

/// The decimal numeral of a whole number: that of its magnitude, after a `-`
/// where it is negative.
pub open spec fn signed_digits(n: int) -> Seq<char> {
    if n < 0 {
        seq!['-'] + decimal_digits((-n) as nat)
    } else {
        decimal_digits(n as nat)
    }
}

/// Writes `n` as a decimal numeral with its sign.
pub fn signed_chars(n: i64) -> (digits: Vec<char>)
    ensures
        digits@ == signed_digits(n as int),
{
    if n < 0 {
        let magnitude: u64 = (-(n as i128)) as u64;
        let mut digits: Vec<char> = Vec::new();
        digits.push('-');
        let mut rest = decimal_chars(magnitude);
        digits.append(&mut rest);
        assert(digits@ =~= signed_digits(n as int));
        digits
    } else {
        decimal_chars(n as u64)
    }
}

/// Reads the characters of `chars` from `start` up to `end` as an unsigned
/// decimal numeral that may not exceed `limit`.
pub fn parse_decimal(chars: &Vec<char>, start: usize, end: usize, limit: u64) -> (number: Option<u64>)
    requires
        start <= end <= chars.len(),
    ensures
        number == decimal_within(chars@.subrange(start as int, end as int), limit),
{
    let ghost s = chars@.subrange(start as int, end as int);
    if start == end {
        return None;
    }
    let mut value: u64 = 0;
    let mut at: usize = start;
    while at < end
        invariant
            start <= at <= end <= chars.len(),
            s == chars@.subrange(start as int, end as int),
            all_digits(s.take(at - start)),
            value == decimal_value(s.take(at - start)),
            value <= limit,
        decreases end - at,
    {
        let c = chars[at];
        let ghost before = s.take(at - start);
        let ghost after = s.take(at - start + 1);
        proof {
            assert(after.drop_last() =~= before);
            assert(after.last() == c);
        }
        if c < '0' || c > '9' {
            assert(!is_digit(s[at - start]));
            return None;
        }
        let d: u64 = (c as u32 - '0' as u32) as u64;
        let next: u128 = value as u128 * 10 + d as u128;
        proof {
            assert(next == decimal_value(after));
            lemma_decimal_value_prefix(s, at - start + 1);
        }
        if next > limit as u128 {
            return None;
        }
        value = next as u64;
        at = at + 1;
        proof {
            assert forall|i: int| 0 <= i < after.len() implies is_digit(#[trigger] after[i]) by {
                if i < before.len() {
                    assert(after[i] == before[i]);
                }
            }
        }
    }
    assert(s.take(at - start) =~= s);
    Some(value)
}

/// Appends one character to a string. Trusted: this is `String::push` of the
/// standard library, which adds `c` at the end and changes nothing else.
#[verifier::external_body]
pub(crate) fn push_char(out: &mut String, c: char)
    ensures
        final(out)@ == old(out)@.push(c),
{
    out.push(c);
}

/// Appends the characters of `chars`, in order, to `out`.
pub fn push_chars(out: &mut String, chars: &Vec<char>)
    ensures
        final(out)@ == old(out)@ + chars@,
{
    let mut at: usize = 0;
    while at < chars.len()
        invariant
            at <= chars.len(),
            out@ == old(out)@ + chars@.take(at as int),
        decreases chars.len() - at,
    {
        push_char(out, chars[at]);
        at = at + 1;
        assert(chars@.take(at as int) =~= chars@.take(at - 1).push(chars@[at - 1]));
    }
    assert(chars@.take(at as int) =~= chars@);
}

/// Whether two strings hold the same characters.
pub fn same_text(a: &str, b: &str) -> (same: bool)
    ensures
        same == (a@ == b@),
{
    let x = chars_of(a);
    let y = chars_of(b);
    if x.len() != y.len() {
        return false;
    }
    let mut at: usize = 0;
    while at < x.len()
        invariant
            at <= x.len(),
            x.len() == y.len(),
            x@ == a@,
            y@ == b@,
            x@.take(at as int) == y@.take(at as int),
        decreases x.len() - at,
    {
        if x[at] != y[at] {
            return false;
        }
        at = at + 1;
        assert(x@.take(at as int) =~= x@.take(at - 1).push(x@[at - 1]));
        assert(y@.take(at as int) =~= y@.take(at - 1).push(y@[at - 1]));
    }
    assert(x@.take(at as int) =~= x@);
    assert(y@.take(at as int) =~= y@);
    true
}

/// The place of the first `a` or `b` in `s`, or the length of `s` where it
/// holds neither.
pub open spec fn first_of(s: Seq<char>, a: char, b: char) -> int
    decreases s.len(),
{
    if s.len() == 0 {
        0
    } else if s[0] == a || s[0] == b {
        0
    } else {
        1 + first_of(s.skip(1), a, b)
    }
}

/// `first_of` is the least place that holds `a` or `b`.
pub proof fn lemma_first_of(s: Seq<char>, a: char, b: char)
    ensures
        0 <= first_of(s, a, b) <= s.len(),
        forall|i: int| 0 <= i < first_of(s, a, b) ==> s[i] != a && s[i] != b,
        first_of(s, a, b) < s.len() ==> s[first_of(s, a, b)] == a || s[first_of(s, a, b)] == b,
    decreases s.len(),
{
    if s.len() != 0 && s[0] != a && s[0] != b {
        let rest = s.skip(1);
        lemma_first_of(rest, a, b);
        assert forall|i: int| 0 <= i < first_of(s, a, b) implies s[i] != a && s[i] != b by {
            if i > 0 {
                assert(s[i] == rest[i - 1]);
            }
        }
    }
}

/// A place before which neither `a` nor `b` occurs, and which holds one of
/// them or is the end, is the first of them.
pub proof fn lemma_first_of_is(s: Seq<char>, a: char, b: char, k: int)
    requires
        0 <= k <= s.len(),
        forall|i: int| 0 <= i < k ==> s[i] != a && s[i] != b,
        k < s.len() ==> s[k] == a || s[k] == b,
    ensures
        first_of(s, a, b) == k,
{
    lemma_first_of(s, a, b);
    let f = first_of(s, a, b);
    if f < k {
        assert(s[f] != a && s[f] != b);
    }
}

/// Finds, from `start` on, the first place in `chars` that holds `a` or `b`;
/// the length of `chars` where there is none.
pub fn find_first(chars: &Vec<char>, start: usize, a: char, b: char) -> (place: usize)
    requires
        start <= chars.len(),
    ensures
        place == start + first_of(chars@.skip(start as int), a, b),
        start <= place <= chars.len(),
{
    let mut at: usize = start;
    while at < chars.len() && chars[at] != a && chars[at] != b
        invariant
            start <= at <= chars.len(),
            forall|i: int| start <= i < at ==> chars@[i] != a && chars@[i] != b,
        decreases chars.len() - at,
    {
        at = at + 1;
    }
    proof {
        lemma_first_of_is(chars@.skip(start as int), a, b, at - start);
    }
    at
}

} // verus!
