use splittea::amount::{Amount, MAX_MANTISSA, MAX_SCALE};

fn dec(text: &str) -> Amount {
    Amount::parse(text).unwrap()
}

#[test]
fn parse_reads_mantissa_and_scale() {
    assert_eq!(dec("12.50"), Amount { mantissa: 1250, scale: 2 });
    assert_eq!(dec("30"), Amount { mantissa: 30, scale: 0 });
    assert_eq!(dec("-3.5"), Amount { mantissa: -35, scale: 1 });
    assert_eq!(dec("0.005"), Amount { mantissa: 5, scale: 3 });
}

#[test]
fn parse_refuses_what_is_no_decimal() {
    assert_eq!(Amount::parse(""), None);
    assert_eq!(Amount::parse("abc"), None);
    assert_eq!(Amount::parse("12,5"), None);
    assert_eq!(Amount::parse("1.2.3"), None);
}

#[test]
fn to_text_writes_every_digit_of_the_scale() {
    assert_eq!(Amount { mantissa: 1250, scale: 2 }.to_text(), "12.50");
    assert_eq!(Amount { mantissa: 5, scale: 3 }.to_text(), "0.005");
    assert_eq!(Amount { mantissa: -35, scale: 1 }.to_text(), "-3.5");
    assert_eq!(Amount::zero().to_text(), "0");
}

#[test]
fn new_keeps_to_the_limits() {
    assert_eq!(Amount::new(7, 3), Some(Amount { mantissa: 7, scale: 3 }));
    assert_eq!(Amount::new(MAX_MANTISSA, MAX_SCALE), Some(Amount { mantissa: MAX_MANTISSA, scale: 28 }));
    assert_eq!(Amount::new(-MAX_MANTISSA, 0), Some(Amount { mantissa: -MAX_MANTISSA, scale: 0 }));
    assert_eq!(Amount::new(MAX_MANTISSA + 1, 0), None);
    assert_eq!(Amount::new(-MAX_MANTISSA - 1, 0), None);
    assert_eq!(Amount::new(1, 29), None);
}

#[test]
fn the_limits_are_those_of_a_decimal() {
    assert_eq!(MAX_MANTISSA, 79_228_162_514_264_337_593_543_950_335);
    assert_eq!(MAX_SCALE, 28);
    assert_eq!(Amount::new(MAX_MANTISSA, 0).unwrap().to_text(), "79228162514264337593543950335");
}

#[test]
fn zero_and_counts() {
    assert_eq!(Amount::zero(), Amount { mantissa: 0, scale: 0 });
    assert_eq!(Amount::from_count(3), Amount { mantissa: 3, scale: 0 });
    assert_eq!(Amount::from_count(0), Amount::zero());
    assert_eq!(dec("4.20").mantissa(), 420);
    assert_eq!(dec("4.20").scale(), 2);
}

#[test]
fn checked_add_aligns_the_scales() {
    assert_eq!(dec("1.5").checked_add(dec("2.25")), Some(Amount { mantissa: 375, scale: 2 }));
    assert_eq!(dec("12.50").checked_add(dec("7.25")), Some(Amount { mantissa: 1975, scale: 2 }));
    assert_eq!(Amount::zero().checked_add(dec("7.25")), Some(Amount { mantissa: 725, scale: 2 }));
}

#[test]
fn checked_add_gives_none_on_overflow() {
    let max = Amount::new(MAX_MANTISSA, 0).unwrap();
    assert_eq!(max.checked_add(max), None);
    assert_eq!(max.checked_add(dec("1")), None);
}

#[test]
fn checked_sub_takes_the_second_from_the_first() {
    assert_eq!(dec("10").checked_sub(dec("2.5")), Some(Amount { mantissa: 75, scale: 1 }));
    assert_eq!(dec("2.5").checked_sub(dec("10")), Some(Amount { mantissa: -75, scale: 1 }));
    assert_eq!(dec("3").checked_sub(dec("3")), Some(Amount { mantissa: 0, scale: 0 }));
}

#[test]
fn checked_sub_gives_none_on_overflow() {
    let max = Amount::new(MAX_MANTISSA, 0).unwrap();
    let min = Amount::new(-MAX_MANTISSA, 0).unwrap();
    assert_eq!(min.checked_sub(max), None);
}

#[test]
fn checked_div_divides() {
    assert_eq!(dec("30").checked_div(dec("3")), Some(Amount { mantissa: 10, scale: 0 }));
    assert_eq!(dec("15.75").checked_div(dec("2")), Some(Amount { mantissa: 78750, scale: 4 }));
    assert_eq!(
        dec("10").checked_div(dec("3")),
        Some(Amount { mantissa: 33_333_333_333_333_333_333_333_333_333, scale: 28 })
    );
}

#[test]
fn checked_div_by_zero_gives_none() {
    assert_eq!(dec("1").checked_div(Amount::zero()), None);
    assert_eq!(Amount::zero().checked_div(Amount::zero()), None);
}

#[test]
fn less_than_compares_numbers_not_digits() {
    assert!(dec("1").less_than(&dec("2")));
    assert!(!dec("2").less_than(&dec("1")));
    assert!(dec("1.5").less_than(&dec("10")));
    assert!(dec("-10").less_than(&dec("0.1")));
    assert!(!dec("1.5").less_than(&dec("1.50")));
    assert!(!dec("1.50").less_than(&dec("1.5")));
    assert!(dec("0.999").less_than(&dec("1")));
}

#[test]
fn the_sign_of_an_amount() {
    assert!(dec("0.00").is_zero());
    assert!(!dec("0.01").is_zero());
    assert!(dec("0.01").is_positive());
    assert!(!dec("0").is_positive());
    assert!(!dec("-2").is_positive());
    assert!(dec("-2").is_negative());
    assert!(!dec("0").is_negative());
}

#[test]
fn abs_drops_the_sign_and_keeps_the_scale() {
    assert_eq!(dec("-2.50").abs(), Amount { mantissa: 250, scale: 2 });
    assert_eq!(dec("2.50").abs(), Amount { mantissa: 250, scale: 2 });
    assert_eq!(dec("0").abs(), Amount::zero());
}

#[test]
fn is_valid_tells_whether_the_parts_fit_a_decimal() {
    assert!(Amount { mantissa: 0, scale: 0 }.is_valid());
    assert!(Amount { mantissa: MAX_MANTISSA, scale: 28 }.is_valid());
    assert!(Amount { mantissa: -MAX_MANTISSA, scale: 28 }.is_valid());
    assert!(!Amount { mantissa: MAX_MANTISSA + 1, scale: 0 }.is_valid());
    assert!(!Amount { mantissa: -MAX_MANTISSA - 1, scale: 0 }.is_valid());
    assert!(!Amount { mantissa: 1, scale: 29 }.is_valid());
    assert!(!Amount { mantissa: i128::MIN, scale: u32::MAX }.is_valid());
}

/// The digits of a decimal, written without the library: sign, whole part,
/// and for a scale above zero a point and the fraction at its full width.
fn written(mantissa: i128, scale: u32) -> String {
    let sign = if mantissa < 0 { "-" } else { "" };
    let magnitude = mantissa.unsigned_abs();
    let unit = 10u128.pow(scale);
    if scale == 0 {
        format!("{}{}", sign, magnitude)
    } else {
        format!("{}{}.{:0width$}", sign, magnitude / unit, magnitude % unit, width = scale as usize)
    }
}

#[test]
fn to_text_is_sign_whole_part_point_and_fraction() {
    let mantissas = [
        0,
        1,
        -1,
        5,
        9,
        10,
        -10,
        99,
        100,
        1250,
        -1250,
        12_345_678_901_234_567_890,
        -98_765_432_109_876_543_210,
        10_000_000_000_000_000_000_000_000_000,
        MAX_MANTISSA - 1,
        MAX_MANTISSA,
        -MAX_MANTISSA,
    ];
    for mantissa in mantissas {
        for scale in 0..=MAX_SCALE {
            let amount = Amount::new(mantissa, scale).unwrap();
            assert_eq!(amount.to_text(), written(mantissa, scale), "{} at scale {}", mantissa, scale);
        }
    }
    assert_eq!(Amount { mantissa: -5, scale: 28 }.to_text(), "-0.0000000000000000000000000005");
    assert_eq!(Amount { mantissa: 0, scale: 2 }.to_text(), "0.00");
}

#[test]
fn what_is_written_is_read_back_as_the_same_amount() {
    for (mantissa, scale) in [(0, 0), (0, 3), (1250, 2), (-35, 1), (5, 28), (MAX_MANTISSA, 0), (-MAX_MANTISSA, 28)] {
        let amount = Amount::new(mantissa, scale).unwrap();
        assert_eq!(Amount::parse(&amount.to_text()), Some(amount));
    }
}
