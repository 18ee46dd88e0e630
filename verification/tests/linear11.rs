use hwmon::linear11::{from_linear11_f, Linear11};

fn value(data: u16) -> f32 {
    let decoded = from_linear11_f(data);
    decoded.numerator() as f32 / decoded.denominator() as f32
}

#[test]
fn zero_word_is_zero() {
    let decoded = from_linear11_f(0x0000);
    assert_eq!(decoded, Linear11 { mantissa: 0, exponent: 0 });
    assert_eq!(decoded.numerator(), 0);
    assert_eq!(decoded.denominator(), 1);
    assert_eq!(value(0x0000), 0.0);
}

#[test]
fn positive_exponent_multiplies() {
    // exponent 3, mantissa 5
    let decoded = from_linear11_f(0x1805);
    assert_eq!(decoded, Linear11 { mantissa: 5, exponent: 3 });
    assert_eq!(decoded.numerator(), 40);
    assert_eq!(decoded.denominator(), 1);
    assert_eq!(value(0x1805), 40.0);
}

#[test]
fn negative_exponent_divides() {
    // exponent -2, mantissa 5
    let decoded = from_linear11_f(0xF005);
    assert_eq!(decoded, Linear11 { mantissa: 5, exponent: -2 });
    assert_eq!(decoded.numerator(), 5);
    assert_eq!(decoded.denominator(), 4);
    assert_eq!(value(0xF005), 1.25);
}

#[test]
fn mantissa_is_sign_extended() {
    assert_eq!(from_linear11_f(0x07FF), Linear11 { mantissa: -1, exponent: 0 });
    assert_eq!(value(0x07FF), -1.0);
    assert_eq!(from_linear11_f(0x0400), Linear11 { mantissa: -1024, exponent: 0 });
    assert_eq!(from_linear11_f(0x03FF), Linear11 { mantissa: 1023, exponent: 0 });
}

#[test]
fn exponent_is_sign_extended() {
    assert_eq!(from_linear11_f(0x7801), Linear11 { mantissa: 1, exponent: 15 });
    assert_eq!(from_linear11_f(0x8001), Linear11 { mantissa: 1, exponent: -16 });
    assert_eq!(from_linear11_f(0xF801), Linear11 { mantissa: 1, exponent: -1 });
    assert_eq!(value(0xF801), 0.5);
}

#[test]
fn extremes_are_exact() {
    let largest = from_linear11_f(0x7BFF);
    assert_eq!(largest, Linear11 { mantissa: 1023, exponent: 15 });
    assert_eq!(largest.numerator(), 1023 * 32768);
    assert_eq!(largest.denominator(), 1);

    let lowest = from_linear11_f(0x7C00);
    assert_eq!(lowest, Linear11 { mantissa: -1024, exponent: 15 });
    assert_eq!(lowest.numerator(), -1024 * 32768);

    let smallest = from_linear11_f(0x8001);
    assert_eq!(smallest.numerator(), 1);
    assert_eq!(smallest.denominator(), 65536);
    assert_eq!(value(0x8001), 1.0 / 65536.0);
}

#[test]
fn zero_mantissa_is_zero_whatever_the_exponent() {
    assert_eq!(value(0x0800), 0.0);
    assert_eq!(value(0xF800), 0.0);
}

#[test]
fn scaled_is_the_value_in_units_of_one_65536th() {
    assert_eq!(from_linear11_f(0x0000).scaled(), 0);
    assert_eq!(from_linear11_f(0x1805).scaled(), 40 * 65536);
    assert_eq!(from_linear11_f(0xF005).scaled(), 5 * 16384);
    assert_eq!(from_linear11_f(0x8001).scaled(), 1);
    assert_eq!(from_linear11_f(0x07FF).scaled(), -65536);
    assert_eq!(from_linear11_f(0x7C00).scaled(), -1024i64 * 32768 * 65536);
}

#[test]
fn every_word_decodes_to_mantissa_times_two_to_the_exponent() {
    for data in 0u16..=u16::MAX {
        let decoded = from_linear11_f(data);
        let exponent = ((data >> 11) as i32 ^ 16) - 16;
        let mantissa = ((data & 0x07FF) as i32 ^ 1024) - 1024;
        assert_eq!(decoded.mantissa as i32, mantissa);
        assert_eq!(decoded.exponent as i32, exponent);
        let expected = mantissa as f64 * 2f64.powi(exponent);
        assert_eq!(decoded.numerator() as f64 / decoded.denominator() as f64, expected);
        assert_eq!(decoded.scaled() as f64 / 65536.0, expected);
    }
}
