use lsock::number::JsonNumber;

fn parts(positive: bool, mantissa: u64, exponent: i16) -> JsonNumber {
    JsonNumber { nan: false, positive, mantissa, exponent }
}

#[test]
fn from_unsigned_has_exponent_zero() {
    assert_eq!(JsonNumber::from_unsigned(0), parts(true, 0, 0));
    assert_eq!(JsonNumber::from_unsigned(8080), parts(true, 8080, 0));
    assert_eq!(JsonNumber::from_unsigned(u64::MAX), parts(true, u64::MAX, 0));
}

#[test]
fn to_unsigned_of_from_unsigned_is_the_number() {
    for k in [0u64, 1, 9, 10, 65535, 1 << 40, u64::MAX] {
        assert_eq!(JsonNumber::from_unsigned(k).to_unsigned(), Some(k));
    }
}

#[test]
fn to_unsigned_scales_up() {
    assert_eq!(parts(true, 3, 0).to_unsigned(), Some(3));
    assert_eq!(parts(true, 1, 3).to_unsigned(), Some(1000));
    assert_eq!(parts(true, 25, 2).to_unsigned(), Some(2500));
    assert_eq!(parts(true, 1, 19).to_unsigned(), Some(10_000_000_000_000_000_000));
}

#[test]
fn to_unsigned_scales_down() {
    assert_eq!(parts(true, 30, -1).to_unsigned(), Some(3));
    assert_eq!(parts(true, 1200, -2).to_unsigned(), Some(12));
    assert_eq!(parts(true, 10_000_000_000_000_000_000, -19).to_unsigned(), Some(1));
}

#[test]
fn to_unsigned_refuses_fractions() {
    assert_eq!(parts(true, 15, -1).to_unsigned(), None);
    assert_eq!(parts(true, 1200, -3).to_unsigned(), None);
    assert_eq!(parts(true, 1, -1).to_unsigned(), None);
    assert_eq!(parts(true, 1, i16::MIN).to_unsigned(), None);
}

#[test]
fn to_unsigned_refuses_what_does_not_fit() {
    assert_eq!(parts(true, u64::MAX, 0).to_unsigned(), Some(u64::MAX));
    assert_eq!(parts(true, 1_844_674_407_370_955_161, 1).to_unsigned(), Some(18_446_744_073_709_551_610));
    assert_eq!(parts(true, 1_844_674_407_370_955_162, 1).to_unsigned(), None);
    assert_eq!(parts(true, 2, 19).to_unsigned(), None);
    assert_eq!(parts(true, 1, 20).to_unsigned(), None);
    assert_eq!(parts(true, 1, i16::MAX).to_unsigned(), None);
}

#[test]
fn to_unsigned_refuses_negative_numbers_but_not_negative_zero() {
    assert_eq!(parts(false, 1, 0).to_unsigned(), None);
    assert_eq!(parts(false, 30, -1).to_unsigned(), None);
    assert_eq!(parts(false, 0, 0).to_unsigned(), Some(0));
    assert_eq!(parts(false, 0, -5).to_unsigned(), Some(0));
}

#[test]
fn to_unsigned_of_zero_ignores_the_exponent() {
    assert_eq!(parts(true, 0, i16::MAX).to_unsigned(), Some(0));
    assert_eq!(parts(true, 0, i16::MIN).to_unsigned(), Some(0));
}

#[test]
fn to_unsigned_refuses_what_is_not_a_number() {
    let nan = JsonNumber { nan: true, positive: true, mantissa: 5, exponent: 0 };
    assert_eq!(nan.to_unsigned(), None);
}

fn reference(number: JsonNumber) -> Option<u64> {
    if number.nan {
        return None;
    }
    if number.mantissa == 0 {
        return Some(0);
    }
    if !number.positive {
        return None;
    }
    let mut value = number.mantissa as u128;
    let mut exponent = number.exponent as i32;
    while exponent > 0 {
        value *= 10;
        if value > u64::MAX as u128 {
            return None;
        }
        exponent -= 1;
    }
    while exponent < 0 {
        if value % 10 != 0 {
            return None;
        }
        value /= 10;
        exponent += 1;
    }
    Some(value as u64)
}

#[test]
fn to_unsigned_agrees_with_wide_arithmetic() {
    let mut seed: u64 = 0x2545_f491_4f6c_dd1d;
    let mut next = move || {
        seed ^= seed << 13;
        seed ^= seed >> 7;
        seed ^= seed << 17;
        seed
    };
    for _ in 0..20000 {
        let digits = next() % 20;
        let mut mantissa = next() % 10u64.pow(digits as u32).max(1);
        let zeros = next() % 6;
        mantissa = mantissa.saturating_mul(10u64.pow(zeros as u32));
        let exponent = (next() % 45) as i16 - 22;
        let number = JsonNumber { nan: false, positive: next() % 8 != 0, mantissa, exponent };
        assert_eq!(number.to_unsigned(), reference(number), "{:?}", number);
    }
}
