use rpncalc::float;
use rpncalc::text::format_integer;
use rpncalc::types::{Radix, Value};

/// A fixed sequence of well-mixed 64-bit numbers.
fn mixed(count: usize) -> Vec<u64> {
    let mut state: u64 = 0x9e37_79b9_7f4a_7c15;
    let mut out = Vec::new();
    for _ in 0..count {
        state ^= state << 13;
        state ^= state >> 7;
        state ^= state << 17;
        out.push(state);
    }
    out
}

fn chosen_floats() -> Vec<f64> {
    vec![
        0.0,
        -0.0,
        0.5,
        -0.5,
        0.999999999,
        1.0,
        -1.0,
        1.5,
        -1.5,
        2.0,
        255.75,
        -255.75,
        4503599627370496.0,
        4503599627370495.5,
        9007199254740992.0,
        9007199254740993.0,
        4611686018427387904.0,
        9223372036854774784.0,
        9223372036854775807.0,
        9223372036854775808.0,
        -9223372036854775808.0,
        -9223372036854777856.0,
        1e19,
        -1e19,
        1e300,
        -1e300,
        f64::MAX,
        f64::MIN,
        f64::MIN_POSITIVE,
        5e-324,
        f64::INFINITY,
        f64::NEG_INFINITY,
        f64::NAN,
        -f64::NAN,
        f64::EPSILON,
    ]
}

#[test]
fn float_to_integer_agrees_with_the_cast() {
    for x in chosen_floats() {
        assert_eq!(float::to_i64(x.to_bits()), x as i64, "{}", x);
    }
    for bits in mixed(20000) {
        assert_eq!(float::to_i64(bits), f64::from_bits(bits) as i64, "{:#x}", bits);
        // the same fraction with every exponent near the range of i64
        for e in 1000u64..1100 {
            let near = (bits & 0x800f_ffff_ffff_ffff) | (e << 52);
            assert_eq!(float::to_i64(near), f64::from_bits(near) as i64, "{:#x}", near);
        }
    }
}

#[test]
fn float_to_integer_exact_values() {
    assert_eq!(float::to_i64(2.9f64.to_bits()), 2);
    assert_eq!(float::to_i64((-2.9f64).to_bits()), -2);
    assert_eq!(float::to_i64(f64::NAN.to_bits()), 0);
    assert_eq!(float::to_i64(f64::INFINITY.to_bits()), i64::MAX);
    assert_eq!(float::to_i64(f64::NEG_INFINITY.to_bits()), i64::MIN);
    assert_eq!(float::to_i64(0x43e0_0000_0000_0000), i64::MAX);
    assert_eq!(float::to_i64(0xc3e0_0000_0000_0000), i64::MIN);
    assert_eq!(float::to_i64(0x43df_ffff_ffff_ffff), 9223372036854774784);
}

#[test]
fn integer_to_float_agrees_with_the_cast() {
    let mut samples: Vec<i64> = vec![
        0,
        1,
        -1,
        2,
        3,
        -3,
        1023,
        i64::MAX,
        i64::MIN,
        i64::MAX - 1,
        i64::MIN + 1,
    ];
    for shift in 50..63 {
        let p = 1i64 << shift;
        for d in -5i64..=5 {
            samples.push(p + d);
            samples.push(-(p + d));
            samples.push(p + (p >> 1) + d);
            samples.push(p + (p >> 53) * d);
        }
    }
    for bits in mixed(20000) {
        samples.push(bits as i64);
        samples.push((bits >> 9) as i64);
        samples.push(-((bits >> 10) as i64));
    }
    for i in samples {
        assert_eq!(float::from_i64(i), (i as f64).to_bits(), "{}", i);
    }
}

#[test]
fn integer_to_float_exact_values() {
    assert_eq!(float::from_i64(0), 0);
    assert_eq!(float::from_i64(1), 0x3ff0_0000_0000_0000);
    assert_eq!(float::from_i64(-2), 0xc000_0000_0000_0000);
    // 2^53 + 1 lies halfway between two floats and goes to the even one
    assert_eq!(float::from_i64(9007199254740993), 0x4340_0000_0000_0000);
    assert_eq!(float::from_i64(9007199254740995), 0x4340_0000_0000_0002);
    // the largest i64 rounds up to 2^63
    assert_eq!(float::from_i64(i64::MAX), 0x43e0_0000_0000_0000);
    assert_eq!(float::from_i64(i64::MIN), 0xc3e0_0000_0000_0000);
}

#[test]
fn small_integers_survive_the_round_trip() {
    for i in [0i64, 1, -1, 123456789, -987654321, 1 << 53, -(1 << 53), (1 << 53) - 1] {
        assert_eq!(float::to_i64(float::from_i64(i)), i);
    }
}

#[test]
fn float_equality_agrees_with_the_numbers() {
    let xs = chosen_floats();
    for a in &xs {
        for b in &xs {
            assert_eq!(float::equal(a.to_bits(), b.to_bits()), a == b, "{} {}", a, b);
        }
    }
}

#[test]
fn value_conversions() {
    assert_eq!(i64::from(Value::Integer(-5)), -5);
    assert_eq!(i64::from(Value::Float(7.99f64.to_bits())), 7);
    assert_eq!(Value::Integer(3).to_float(), 3.0f64.to_bits());
    assert_eq!(Value::Float(0.1f64.to_bits()).to_float(), 0.1f64.to_bits());
    assert!(Value::Float(0).is_float());
    assert!(!Value::Float(0).is_integer());
    assert!(Value::Integer(0).is_integer());
    assert!(!Value::Integer(0).is_float());
}

#[test]
fn value_equality() {
    assert_eq!(Value::Integer(1), Value::Integer(1));
    assert_ne!(Value::Integer(1), Value::Integer(2));
    assert_ne!(Value::Integer(1), Value::Float(1.0f64.to_bits()));
    assert_eq!(Value::Float(0.0f64.to_bits()), Value::Float((-0.0f64).to_bits()));
    assert_ne!(Value::Float(f64::NAN.to_bits()), Value::Float(f64::NAN.to_bits()));
    assert_eq!(Value::Float(2.5f64.to_bits()), Value::Float(2.5f64.to_bits()));
}

#[test]
fn integer_text_agrees_with_formatting() {
    let mut samples: Vec<i64> = vec![0, 1, -1, 9, 10, 15, 16, 255, -255, i64::MAX, i64::MIN];
    for bits in mixed(2000) {
        samples.push(bits as i64);
        samples.push((bits >> 40) as i64);
    }
    for i in samples {
        assert_eq!(format_integer(i, Radix::Dec), format!("{}", i));
        assert_eq!(format_integer(i, Radix::Hex), format!("{:#x}", i));
        assert_eq!(format_integer(i, Radix::Bin), format!("{:#b}", i));
    }
}

#[test]
fn value_text() {
    assert_eq!(Value::Integer(-12).text(Radix::Dec), Some("-12".to_string()));
    assert_eq!(Value::Integer(12).text(Radix::Hex), Some("0xc".to_string()));
    assert_eq!(Value::Integer(12).text(Radix::Bin), Some("0b1100".to_string()));
    assert_eq!(Value::Float(12.0f64.to_bits()).text(Radix::Dec), None);
}

#[test]
fn integer_text_exact_values() {
    assert_eq!(format_integer(255, Radix::Dec), "255");
    assert_eq!(format_integer(255, Radix::Hex), "0xff");
    assert_eq!(format_integer(5, Radix::Bin), "0b101");
    assert_eq!(format_integer(0, Radix::Hex), "0x0");
    assert_eq!(format_integer(-1, Radix::Dec), "-1");
    assert_eq!(format_integer(-1, Radix::Hex), "0xffffffffffffffff");
    assert_eq!(format_integer(i64::MIN, Radix::Dec), "-9223372036854775808");
}
