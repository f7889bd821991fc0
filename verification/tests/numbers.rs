use loxide::number::{Decimal, Number};

fn num(value: f64) -> Number {
    Number::from_bits(value.to_bits())
}

fn samples() -> Vec<f64> {
    vec![
        0.0,
        -0.0,
        1.0,
        -1.0,
        0.5,
        -0.5,
        45.67,
        -5617.91,
        f64::MIN_POSITIVE,
        -f64::MIN_POSITIVE,
        5e-324,
        -5e-324,
        f64::MAX,
        f64::MIN,
        f64::INFINITY,
        f64::NEG_INFINITY,
        f64::NAN,
        -f64::NAN,
        f64::from_bits(0x7ff0_0000_0000_0001),
        f64::from_bits(0xfff8_0000_0000_1234),
    ]
}

#[test]
fn bits_go_in_and_out_unchanged() {
    assert_eq!(Number::from_bits(0x4046_d5c2_8f5c_28f6).to_bits(), 0x4046_d5c2_8f5c_28f6);
    assert_eq!(num(45.67).to_bits(), 0x4046_d5c2_8f5c_28f6);
    assert_eq!(num(1.0).bits, 0x3ff0_0000_0000_0000);
}

#[test]
fn negation_flips_the_sign() {
    for x in samples() {
        assert_eq!(num(x).negated().to_bits(), (-x).to_bits(), "for {:?}", x);
    }
    assert_eq!(num(0.0).negated().to_bits(), 0x8000_0000_0000_0000);
    assert_eq!(num(123.0).negated().to_bits(), (-123.0f64).to_bits());
}

#[test]
fn not_a_number_is_told_apart() {
    for x in samples() {
        assert_eq!(num(x).is_not_a_number(), x.is_nan(), "for {:?}", x);
    }
}

#[test]
fn equality_is_numeric() {
    for x in samples() {
        for y in samples() {
            assert_eq!(num(x).equals(num(y)), x == y, "for {:?} and {:?}", x, y);
        }
    }
    assert!(num(0.0).equals(num(-0.0)));
    assert!(!num(f64::NAN).equals(num(f64::NAN)));
}

#[test]
fn order_is_numeric() {
    for x in samples() {
        for y in samples() {
            assert_eq!(num(x).less_than(num(y)), x < y, "{:?} < {:?}", x, y);
            assert_eq!(num(x).at_most(num(y)), x <= y, "{:?} <= {:?}", x, y);
            assert_eq!(num(x).greater_than(num(y)), x > y, "{:?} > {:?}", x, y);
            assert_eq!(num(x).at_least(num(y)), x >= y, "{:?} >= {:?}", x, y);
        }
    }
    assert!(num(-1.0).less_than(num(1.0)));
    assert!(!num(0.0).less_than(num(-0.0)));
    assert!(!num(-0.0).less_than(num(0.0)));
    assert!(num(-0.0).at_most(num(0.0)));
    assert!(!num(f64::NAN).at_most(num(f64::NAN)));
}

#[test]
fn numerals_are_read() {
    for text in ["0", "7", "123", "45.67", "0.5", "00.10", "12345678901234567890.5"] {
        let d = Decimal::parse(text).unwrap();
        assert_eq!(d.to_text(), text);
        let point = text.find('.');
        assert_eq!(d.scale(), point.map_or(0, |p| text.len() - p - 1));
    }
}

#[test]
fn other_texts_are_no_numerals() {
    for text in [
        "", ".", "1.", ".5", "1.2.3", "-1", "+1", "1e5", "a", "1 ", " 1", "1,5", "\u{663}",
    ] {
        assert!(Decimal::parse(text).is_none(), "for {:?}", text);
    }
}

#[test]
fn a_copy_of_a_decimal_writes_the_same_numeral() {
    let d = Decimal::parse("45.67").unwrap();
    let e = d.clone();
    assert_eq!(e.to_text(), "45.67");
    assert_eq!(e.scale(), 2);
}

/// Bit patterns from a fixed sequence, spread over all exponents and signs.
fn patterns(count: usize) -> Vec<u64> {
    let mut state: u64 = 0x9e37_79b9_7f4a_7c15;
    let mut out = Vec::with_capacity(count);
    for _ in 0..count {
        state ^= state << 13;
        state ^= state >> 7;
        state ^= state << 17;
        out.push(state);
    }
    out
}

#[test]
fn numbers_behave_as_the_machine_does_on_many_patterns() {
    let bits = patterns(2000);
    for pair in bits.windows(2) {
        let (a, b) = (pair[0], pair[1]);
        let (x, y) = (f64::from_bits(a), f64::from_bits(b));
        let (m, n) = (Number::from_bits(a), Number::from_bits(b));
        assert_eq!(m.is_not_a_number(), x.is_nan());
        assert_eq!(m.negated().to_bits(), (-x).to_bits());
        assert_eq!(m.equals(n), x == y);
        assert_eq!(m.equals(m), x == x);
        assert_eq!(m.less_than(n), x < y);
        assert_eq!(m.at_most(n), x <= y);
        assert_eq!(m.greater_than(n), x > y);
        assert_eq!(m.at_least(n), x >= y);
        assert_eq!(m.less_than(m.negated()), x < -x);
        assert_eq!(m.at_most(m.negated()), x <= -x);
    }
}
