//! Text as sequences of characters: moving between `String` and `Vec<char>`,
//! and writing numbers in decimal.
use vstd::prelude::*;

verus! {

/// Appends one character to a string, by `String::push`. The contract says
/// that the new text is the old text followed by that character.
#[verifier::external_body]
pub(crate) fn push_char(s: &mut String, c: char)
    ensures
        final(s)@ == old(s)@.push(c),
{
    s.push(c);
}

/// The characters of a string, in order.
pub fn chars_of(s: &str) -> (v: Vec<char>)
    ensures
        v@ == s@,
{
    let mut v: Vec<char> = Vec::new();
    for c in it: s.chars()
        invariant
            it.seq() == s@,
            v@ == s@.take(it.index() as int),
    {
        v.push(c);
    }
    v
}

/// The string made of the characters `chars[from..to]`.
pub(crate) fn string_between(chars: &Vec<char>, from: usize, to: usize) -> (s: String)
    requires
        from <= to <= chars@.len(),
    ensures
        s@ == chars@.subrange(from as int, to as int),
{
    let mut s: String = String::new();
    let mut i: usize = from;
    while i < to
        invariant
            from <= i <= to <= chars@.len(),
            s@ == chars@.subrange(from as int, i as int),
        decreases to - i,
    {
        push_char(&mut s, chars[i]);
        i += 1;
    }
    s
}

/// Where the run of characters of one class that starts at `from` ends: the
/// first position at or after `from` whose character is not in the class, or
/// the length of the text.
pub open spec fn run_end(s: Seq<char>, from: int, class: spec_fn(char) -> bool) -> int
    decreases s.len() - from,
{
    if 0 <= from < s.len() && class(s[from]) {
        run_end(s, from + 1, class)
    } else {
        from
    }
}

/// A run ends inside the text, holds only characters of its class, and is
/// followed by the end of the text or a character outside the class.
pub proof fn lemma_run_end(s: Seq<char>, from: int, class: spec_fn(char) -> bool)
    requires
        0 <= from <= s.len(),
    ensures
        from <= run_end(s, from, class) <= s.len(),
        forall|i: int| from <= i < run_end(s, from, class) ==> class(#[trigger] s[i]),
        run_end(s, from, class) < s.len() ==> !class(s[run_end(s, from, class)]),
    decreases s.len() - from,
{
    if from < s.len() && class(s[from]) {
        lemma_run_end(s, from + 1, class);
    }
}

/// A run is determined by its two properties: it ends at `to` if every
/// character before `to` is in the class and none at `to` is.
pub proof fn lemma_run_end_is(s: Seq<char>, from: int, to: int, class: spec_fn(char) -> bool)
    requires
        0 <= from <= to <= s.len(),
        forall|i: int| from <= i < to ==> class(#[trigger] s[i]),
        to < s.len() ==> !class(s[to]),
    ensures
        run_end(s, from, class) == to,
    decreases to - from,
{
    if from < to {
        lemma_run_end_is(s, from + 1, to, class);
    }
}

/// Whether a character is one of the ten decimal digits.
pub open spec fn is_digit(c: char) -> bool {
    '0' <= c <= '9'
}

/// The class of the decimal digits.
pub open spec fn digits() -> spec_fn(char) -> bool {
    |c: char| is_digit(c)
}

/// The number that a decimal digit writes.
pub open spec fn digit_value(c: char) -> u8
    recommends
        is_digit(c),
{
    (c as int - '0' as int) as u8
}

/// Whether a character is one of the ten decimal digits.
pub fn is_decimal_digit(c: char) -> (r: bool)
    ensures
        r == is_digit(c),
{
    '0' <= c && c <= '9'
}

/// The number that a decimal digit writes.
pub(crate) fn value_of_digit(c: char) -> (d: u8)
    requires
        is_digit(c),
    ensures
        d == digit_value(c),
        d < 10,
{
    (c as u32 - '0' as u32) as u8
}

/// Where the run of decimal digits that starts at `from` ends.
pub(crate) fn digits_end(chars: &Vec<char>, from: usize) -> (to: usize)
    requires
        from <= chars@.len(),
    ensures
        to == run_end(chars@, from as int, digits()),
        from <= to <= chars@.len(),
{
    let mut i: usize = from;
    while i < chars.len() && is_decimal_digit(chars[i])
        invariant
            from <= i <= chars@.len(),
            run_end(chars@, from as int, digits()) == run_end(chars@, i as int, digits()),
        decreases chars@.len() - i,
    {
        i += 1;
    }
    i
}

/// The character that writes a digit.
pub open spec fn digit_char(d: nat) -> char
    recommends
        d < 10,
{
    ('0' as nat + d) as char
}

/// The decimal numeral of a natural number, without leading zeros.
pub open spec fn decimal_numeral(n: nat) -> Seq<char>
    decreases n,
{
    if n < 10 {
        seq![digit_char(n)]
    } else {
        decimal_numeral(n / 10).push(digit_char(n % 10))
    }
}

/// The character that writes a digit.
pub(crate) fn char_of_digit(d: u8) -> (c: char)
    requires
        d < 10,
    ensures
        c == digit_char(d as nat),
{
    (48u8 + d) as char
}

/// Appends the decimal numeral of `n` to `s`.
pub(crate) fn push_decimal(s: &mut String, n: usize)
    ensures
        final(s)@ == old(s)@ + decimal_numeral(n as nat),
    decreases n,
{
    if n < 10 {
        push_char(s, char_of_digit(n as u8));
    } else {
        push_decimal(s, n / 10);
        push_char(s, char_of_digit((n % 10) as u8));
    }
}

/// Appends the text of `tail` to `s`.
pub(crate) fn push_text(s: &mut String, tail: &str)
    ensures
        final(s)@ == old(s)@ + tail@,
{
    s.append(tail);
}

} // verus!
