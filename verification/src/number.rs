//! Numbers as the library holds them: IEEE-754 binary64 bit patterns, and the
//! exact decimal numerals that source text denotes.
use crate::text::{
    char_of_digit, chars_of, digit_char, digit_value, digits, digits_end, is_digit,
    lemma_run_end, lemma_run_end_is, push_char, run_end, value_of_digit,
};
use vstd::prelude::*;

verus! {

/// The weight of the sign bit in a binary64 bit pattern.
pub const SIGN_BIT: u64 = 0x8000_0000_0000_0000;

/// The bit pattern of positive infinity. Larger magnitudes are not-a-number.
pub const INFINITY_BITS: u64 = 0x7ff0_0000_0000_0000;

/// An IEEE-754 binary64 value, held as its bit pattern.
///
/// The derived `==` compares bit patterns. Numeric equality, which treats the
/// two zeros as equal and a not-a-number as unequal to everything, is
/// [`Number::equals`].
#[derive(Clone, Copy, Debug, PartialEq, Eq, Structural)]
pub struct Number {
    pub bits: u64,
}

impl Number {
    /// The bit pattern without its sign bit.
    pub open spec fn magnitude(self) -> int {
        if self.bits >= SIGN_BIT {
            self.bits - SIGN_BIT
        } else {
            self.bits as int
        }
    }

    /// Whether the sign bit is set.
    pub open spec fn is_negative(self) -> bool {
        self.bits >= SIGN_BIT
    }

    /// Whether the pattern encodes a not-a-number.
    pub open spec fn is_nan(self) -> bool {
        self.magnitude() > INFINITY_BITS
    }

    /// The place of a number on the number line, for a pattern that is not a
    /// not-a-number: magnitudes grow with the value they encode, so a signed
    /// magnitude orders patterns as the values they stand for. Both zeros
    /// have rank 0.
    pub open spec fn rank(self) -> int {
        if self.is_negative() {
            -self.magnitude()
        } else {
            self.magnitude()
        }
    }

    /// Whether both operands are numbers that can be ordered.
    pub open spec fn ordered(self, other: Number) -> bool {
        !self.is_nan() && !other.is_nan()
    }

    /// Numeric equality.
    pub open spec fn equals_spec(self, other: Number) -> bool {
        self.ordered(other) && self.rank() == other.rank()
    }

    /// Numeric `<`.
    pub open spec fn less_than_spec(self, other: Number) -> bool {
        self.ordered(other) && self.rank() < other.rank()
    }

    /// Numeric `<=`.
    pub open spec fn at_most_spec(self, other: Number) -> bool {
        self.ordered(other) && self.rank() <= other.rank()
    }

    /// The pattern with its sign bit flipped.
    pub open spec fn negated_spec(self) -> Number {
        if self.bits >= SIGN_BIT {
            Number { bits: (self.bits - SIGN_BIT) as u64 }
        } else {
            Number { bits: (self.bits + SIGN_BIT) as u64 }
        }
    }

    /// Wraps a bit pattern.
    pub fn from_bits(bits: u64) -> (n: Number)
        ensures
            n.bits == bits,
    {
        Number { bits }
    }

    /// The bit pattern.
    pub fn to_bits(self) -> (bits: u64)
        ensures
            bits == self.bits,
    {
        self.bits
    }

    fn magnitude_bits(self) -> (m: u64)
        ensures
            m == self.magnitude(),
            m < SIGN_BIT,
    {
        if self.bits >= SIGN_BIT {
            self.bits - SIGN_BIT
        } else {
            self.bits
        }
    }

    /// Whether the number is a not-a-number.
    pub fn is_not_a_number(self) -> (r: bool)
        ensures
            r == self.is_nan(),
    {
        self.magnitude_bits() > INFINITY_BITS
    }

    /// Arithmetic negation: the same magnitude with the opposite sign, also
    /// for zeros, infinities and not-a-numbers.
    pub fn negated(self) -> (n: Number)
        ensures
            n == self.negated_spec(),
            n.magnitude() == self.magnitude(),
            n.is_negative() != self.is_negative(),
    {
        if self.bits >= SIGN_BIT {
            Number { bits: self.bits - SIGN_BIT }
        } else {
            Number { bits: self.bits + SIGN_BIT }
        }
    }

    /// Numeric equality.
    pub fn equals(self, other: Number) -> (r: bool)
        ensures
            r == self.equals_spec(other),
    {
        if self.is_not_a_number() || other.is_not_a_number() {
            return false;
        }
        let a: u64 = self.magnitude_bits();
        let b: u64 = other.magnitude_bits();
        if a == 0 && b == 0 {
            true
        } else {
            a == b && (self.bits >= SIGN_BIT) == (other.bits >= SIGN_BIT)
        }
    }

    /// Numeric `<`.
    pub fn less_than(self, other: Number) -> (r: bool)
        ensures
            r == self.less_than_spec(other),
    {
        if self.is_not_a_number() || other.is_not_a_number() {
            return false;
        }
        let a: u64 = self.magnitude_bits();
        let b: u64 = other.magnitude_bits();
        let a_negative: bool = self.bits >= SIGN_BIT;
        let b_negative: bool = other.bits >= SIGN_BIT;
        if a_negative {
            if b_negative {
                b < a
            } else {
                a != 0 || b != 0
            }
        } else {
            if b_negative {
                false
            } else {
                a < b
            }
        }
    }

    /// Numeric `<=`.
    pub fn at_most(self, other: Number) -> (r: bool)
        ensures
            r == self.at_most_spec(other),
    {
        self.less_than(other) || self.equals(other)
    }

    /// Numeric `>`.
    pub fn greater_than(self, other: Number) -> (r: bool)
        ensures
            r == other.less_than_spec(self),
    {
        other.less_than(self)
    }

    /// Numeric `>=`.
    pub fn at_least(self, other: Number) -> (r: bool)
        ensures
            r == other.at_most_spec(self),
    {
        other.at_most(self)
    }
}

/// An exact decimal numeral: a run of decimal digits, the last `scale` of
/// which stand after the decimal point. At least one digit stands before it.
#[derive(Debug)]
pub struct Decimal {
    digits: Vec<u8>,
    scale: usize,
}

/// What a [`Decimal`] holds: its digits, most significant first, and how many
/// of them stand after the decimal point.
pub struct DecimalView {
    pub digits: Seq<u8>,
    pub scale: nat,
}

/// The number that a run of decimal digits writes.
pub open spec fn digits_value(digits: Seq<u8>) -> nat
    decreases digits.len(),
{
    if digits.len() == 0 {
        0
    } else {
        digits_value(digits.drop_last()) * 10 + digits.last() as nat
    }
}

/// The numbers that a run of digit characters writes, one by one.
pub open spec fn digit_values(s: Seq<char>) -> Seq<u8> {
    s.map_values(|c: char| digit_value(c))
}

/// The characters that write a run of digits, one by one.
pub open spec fn digit_chars(digits: Seq<u8>) -> Seq<char> {
    digits.map_values(|d: u8| digit_char(d as nat))
}

/// Whether every character of a text is a decimal digit.
pub open spec fn all_digits(s: Seq<char>) -> bool {
    forall|i: int| 0 <= i < s.len() ==> is_digit(#[trigger] s[i])
}

/// Whether a text is a decimal numeral: one or more digits, which may be
/// followed by a point and one or more digits.
pub open spec fn is_numeral(s: Seq<char>) -> bool {
    ||| s.len() > 0 && all_digits(s)
    ||| exists|k: int|
        0 < k < s.len() - 1 && #[trigger] s[k] == '.' && all_digits(s.take(k)) && all_digits(
            s.skip(k + 1),
        )
}

/// The decimal with the digits of `whole` before the point and those of
/// `fraction` after it.
pub open spec fn decimal_of(whole: Seq<char>, fraction: Seq<char>) -> DecimalView {
    DecimalView { digits: digit_values(whole + fraction), scale: fraction.len() }
}

/// The decimal that a numeral writes.
pub open spec fn numeral(s: Seq<char>) -> DecimalView {
    let point = run_end(s, 0, digits());
    if point >= s.len() {
        decimal_of(s, Seq::empty())
    } else {
        decimal_of(s.take(point), s.skip(point + 1))
    }
}

impl DecimalView {
    /// At least one digit stands before the point, and every digit is below ten.
    pub open spec fn wf(self) -> bool {
        &&& self.scale < self.digits.len()
        &&& forall|i: int| 0 <= i < self.digits.len() ==> #[trigger] self.digits[i] < 10
    }

    /// The digits read as one natural number. The decimal stands for this
    /// number divided by ten to the power `scale`.
    pub open spec fn mantissa(self) -> nat {
        digits_value(self.digits)
    }

    /// The numeral that writes the decimal.
    pub open spec fn text(self) -> Seq<char> {
        let point = self.digits.len() - self.scale;
        if self.scale == 0 {
            digit_chars(self.digits)
        } else {
            digit_chars(self.digits.take(point)).push('.') + digit_chars(self.digits.skip(point))
        }
    }
}

impl View for Decimal {
    type V = DecimalView;

    closed spec fn view(&self) -> DecimalView {
        DecimalView { digits: self.digits@, scale: self.scale as nat }
    }
}

impl Clone for Decimal {
    fn clone(&self) -> (d: Self)
        ensures
            d@ == self@,
    {
        proof {
            use_type_invariant(self);
        }
        let digits: Vec<u8> = self.digits.clone();
        Decimal { digits, scale: self.scale }
    }
}

impl Decimal {
    #[verifier::type_invariant]
    spec fn well_formed(self) -> bool {
        self@.wf()
    }

    /// Reads the decimal whose whole part is `chars[from..point]` and whose
    /// fraction, if `point < to`, is `chars[point + 1..to]`.
    pub(crate) fn from_parts(chars: &Vec<char>, from: usize, point: usize, to: usize) -> (d:
        Decimal)
        requires
            from < point <= to <= chars@.len(),
            all_digits(chars@.subrange(from as int, point as int)),
            point < to ==> point + 1 < to && all_digits(chars@.subrange(point + 1, to as int)),
        ensures
            d@ == decimal_of(
                chars@.subrange(from as int, point as int),
                if point < to {
                    chars@.subrange(point + 1, to as int)
                } else {
                    Seq::empty()
                },
            ),
    {
        let ghost whole = chars@.subrange(from as int, point as int);
        let ghost fraction = if point < to {
            chars@.subrange(point + 1, to as int)
        } else {
            Seq::empty()
        };
        let mut digits: Vec<u8> = Vec::new();
        let mut i: usize = from;
        while i < point
            invariant
                from <= i <= point <= chars@.len(),
                whole == chars@.subrange(from as int, point as int),
                all_digits(whole),
                digits@ == digit_values(whole.take(i - from)),
                forall|j: int| 0 <= j < digits@.len() ==> #[trigger] digits@[j] < 10,
            decreases point - i,
        {
            assert(whole[i - from] == chars@[i as int]);
            digits.push(value_of_digit(chars[i]));
            i += 1;
        }
        assert(whole.take(point - from) == whole);
        let mut scale: usize = 0;
        if point < to {
            let mut j: usize = point + 1;
            while j < to
                invariant
                    point < j <= to <= chars@.len(),
                    fraction == chars@.subrange(point + 1, to as int),
                    all_digits(fraction),
                    scale == j - point - 1,
                    digits@ == digit_values(whole + fraction.take(scale as int)),
                    forall|k: int| 0 <= k < digits@.len() ==> #[trigger] digits@[k] < 10,
                decreases to - j,
            {
                assert(fraction[j - point - 1] == chars@[j as int]);
                digits.push(value_of_digit(chars[j]));
                scale += 1;
                j += 1;
            }
            assert(fraction.take(scale as int) == fraction);
        }
        Decimal { digits, scale }
    }

    /// Reads a numeral. The result is `Some` exactly for the texts that are
    /// numerals.
    pub fn parse(text: &str) -> (r: Option<Decimal>)
        ensures
            r is Some <==> is_numeral(text@),
            r matches Some(d) ==> d@ == numeral(text@),
    {
        let chars: Vec<char> = chars_of(text);
        let point: usize = digits_end(&chars, 0);
        proof {
            lemma_run_end(chars@, 0, digits());
            lemma_numeral_shape(chars@);
        }
        if point == 0 {
            None
        } else if point == chars.len() {
            assert(chars@.subrange(0, point as int) == chars@);
            Some(Decimal::from_parts(&chars, 0, point, point))
        } else if chars[point] == '.' && point + 1 < chars.len() {
            let to: usize = digits_end(&chars, point + 1);
            if to == chars.len() {
                proof {
                    lemma_run_end(chars@, point + 1, digits());
                }
                Some(Decimal::from_parts(&chars, 0, point, to))
            } else {
                None
            }
        } else {
            None
        }
    }

    /// How many digits stand after the decimal point.
    pub fn scale(&self) -> (n: usize)
        ensures
            n == self@.scale,
            self@.wf(),
    {
        proof {
            use_type_invariant(self);
        }
        self.scale
    }

    /// The numeral that writes the decimal.
    pub fn to_text(&self) -> (s: String)
        ensures
            s@ == self@.text(),
            self@.wf(),
    {
        proof {
            use_type_invariant(self);
        }
        let point: usize = self.digits.len() - self.scale;
        let mut s: String = String::new();
        let mut i: usize = 0;
        while i < point
            invariant
                i <= point <= self.digits@.len(),
                self@.wf(),
                s@ == digit_chars(self.digits@.take(i as int)),
            decreases point - i,
        {
            push_char(&mut s, char_of_digit(self.digits[i]));
            i += 1;
        }
        if self.scale > 0 {
            push_char(&mut s, '.');
            let ghost head = s@;
            while i < self.digits.len()
                invariant
                    point <= i <= self.digits@.len(),
                    self@.wf(),
                    s@ == head + digit_chars(self.digits@.subrange(point as int, i as int)),
                decreases self.digits@.len() - i,
            {
                push_char(&mut s, char_of_digit(self.digits[i]));
                i += 1;
            }
        }
        s
    }
}

/// A numeral is shaped by its leading run of digits: either the run is the
/// whole text, or a point follows it and digits fill the rest.
pub proof fn lemma_numeral_shape(s: Seq<char>)
    ensures
        is_numeral(s) <==> {
            let point = run_end(s, 0, digits());
            &&& point > 0
            &&& point == s.len() || (s[point] == '.' && point + 1 < s.len() && run_end(
                s,
                point + 1,
                digits(),
            ) == s.len())
        },
{
    let point = run_end(s, 0, digits());
    lemma_run_end(s, 0, digits());
    if s.len() > 0 && all_digits(s) {
        lemma_run_end_is(s, 0, s.len() as int, digits());
    }
    if exists|k: int|
        0 < k < s.len() - 1 && #[trigger] s[k] == '.' && all_digits(s.take(k)) && all_digits(
            s.skip(k + 1),
        ) {
        let k = choose|k: int|
            0 < k < s.len() - 1 && #[trigger] s[k] == '.' && all_digits(s.take(k)) && all_digits(
                s.skip(k + 1),
            );
        assert forall|i: int| 0 <= i < k implies digits()(#[trigger] s[i]) by {
            assert(s.take(k)[i] == s[i]);
        }
        lemma_run_end_is(s, 0, k, digits());
        assert forall|i: int| k + 1 <= i < s.len() implies digits()(#[trigger] s[i]) by {
            assert(s.skip(k + 1)[i - k - 1] == s[i]);
        }
        lemma_run_end_is(s, k + 1, s.len() as int, digits());
    }
    if 0 < point < s.len() - 1 {
        lemma_run_end(s, point + 1, digits());
        if s[point] == '.' && run_end(s, point + 1, digits()) == s.len() {
            assert(all_digits(s.skip(point + 1)));
        }
    }
}

/// A digit character writes the digit it was made from.
pub proof fn lemma_digit_char(d: u8)
    requires
        d < 10,
    ensures
        is_digit(digit_char(d as nat)),
        digit_value(digit_char(d as nat)) == d,
{
}

/// The text of a decimal is a numeral, and the numeral writes the decimal:
/// what `to_text` gives can be read back without loss.
pub proof fn lemma_text_is_numeral(v: DecimalView)
    requires
        v.wf(),
    ensures
        is_numeral(v.text()),
        numeral(v.text()) == v,
{
    let text = v.text();
    let point = v.digits.len() - v.scale;
    let whole = digit_chars(v.digits.take(point));
    assert forall|i: int| 0 <= i < v.digits.len() implies is_digit(
        #[trigger] digit_chars(v.digits)[i],
    ) && digit_value(digit_chars(v.digits)[i]) == v.digits[i] by {
        lemma_digit_char(v.digits[i]);
    }
    assert forall|i: int| 0 <= i < point implies digits()(#[trigger] text[i]) by {
        lemma_digit_char(v.digits[i]);
    }
    lemma_run_end_is(text, 0, point, digits());
    if v.scale == 0 {
        assert(digit_values(text) =~= v.digits);
    } else {
        let fraction = digit_chars(v.digits.skip(point));
        assert(text.take(point) == whole);
        assert(text.skip(point + 1) == fraction);
        assert forall|i: int| 0 <= i < fraction.len() implies is_digit(#[trigger] fraction[i])
            && digit_value(fraction[i]) == v.digits[point + i] by {
            lemma_digit_char(v.digits[point + i]);
        }
        assert forall|i: int| 0 <= i < whole.len() implies is_digit(#[trigger] whole[i])
            && digit_value(whole[i]) == v.digits[i] by {
            lemma_digit_char(v.digits[i]);
        }
        assert(digit_values(whole + fraction) =~= v.digits);
    }
}

/// A numeral writes a well-formed decimal whose text is the numeral: what
/// `parse` reads can be written back without loss.
pub proof fn lemma_numeral_text(s: Seq<char>)
    requires
        is_numeral(s),
    ensures
        numeral(s).wf(),
        numeral(s).text() == s,
{
    lemma_numeral_shape(s);
    lemma_run_end(s, 0, digits());
    let point = run_end(s, 0, digits());
    let v = numeral(s);
    if point >= s.len() {
        assert forall|i: int| 0 <= i < s.len() implies #[trigger] v.digits[i] < 10 && digit_char(
            v.digits[i] as nat,
        ) == s[i] by {}
    } else {
        lemma_run_end(s, point + 1, digits());
        let whole = s.take(point);
        let fraction = s.skip(point + 1);
        assert forall|i: int| 0 <= i < v.digits.len() implies #[trigger] v.digits[i] < 10
            && digit_char(v.digits[i] as nat) == (whole + fraction)[i] by {}
    }
}

} // verus!
