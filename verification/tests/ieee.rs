use raccoon::ieee::{add_bits, divide_bits, multiply_bits, subtract_bits};

fn patterns() -> Vec<u64> {
    let mut out: Vec<u64> = Vec::new();
    for value in [
        0.0f64,
        -0.0,
        1.0,
        -1.0,
        2.0,
        0.5,
        1.5,
        3.0,
        0.1,
        0.2,
        0.3,
        1e-320,
        5e-324,
        -5e-324,
        2.2250738585072014e-308,
        2.225073858507201e-308,
        1.7976931348623157e308,
        -1.7976931348623157e308,
        8.98846567431158e307,
        1e300,
        1e-300,
        1e154,
        1e-154,
        1.3407807929942597e154,
        9007199254740992.0,
        9007199254740993.0,
        4503599627370496.5,
        123456789.125,
        -100_000.000_1,
        234_567.120_345,
        f64::INFINITY,
        f64::NEG_INFINITY,
        f64::NAN,
    ] {
        out.push(value.to_bits());
    }
    let mut state: u64 = 0x2545_F491_4F6C_DD1D;
    for i in 0..600u32 {
        state ^= state << 13;
        state ^= state >> 7;
        state ^= state << 17;
        out.push(state);
        // values near one another, and near the ends of the range
        out.push((state >> 12) | 0x3FF0_0000_0000_0000);
        out.push((state >> 12) | ((i as u64 % 8) << 52));
        out.push((state >> 12) | ((0x7F8 + (i as u64 % 8)) << 52));
        out.push((state & 0x800F_FFFF_FFFF_FFFF) | ((1000 + (i as u64 % 64)) << 52));
    }
    out
}

fn same(ours: u64, theirs: f64) -> bool {
    if theirs.is_nan() {
        f64::from_bits(ours).is_nan()
    } else {
        ours == theirs.to_bits()
    }
}

#[test]
fn products_agree_with_the_hardware() {
    let values = patterns();
    for (i, a) in values.iter().enumerate() {
        for b in values.iter().skip(i % 7).step_by(7) {
            let theirs = f64::from_bits(*a) * f64::from_bits(*b);
            assert!(same(multiply_bits(*a, *b), theirs), "{:#x} * {:#x}", a, b);
        }
    }
    assert_eq!(multiply_bits(1.5f64.to_bits(), 2.0f64.to_bits()), 3.0f64.to_bits());
    assert_eq!(multiply_bits(f64::NAN.to_bits(), 2.0f64.to_bits()), 0x7FF8_0000_0000_0000);
}

#[test]
fn sums_agree_with_the_hardware() {
    let values = patterns();
    for (i, a) in values.iter().enumerate() {
        for b in values.iter().skip(i % 5).step_by(5) {
            let theirs = f64::from_bits(*a) + f64::from_bits(*b);
            assert!(same(add_bits(*a, *b), theirs), "{:#x} + {:#x}", a, b);
        }
    }
    assert_eq!(add_bits(1.5f64.to_bits(), 2.25f64.to_bits()), 3.75f64.to_bits());
    assert_eq!(add_bits(0.1f64.to_bits(), 0.2f64.to_bits()), 0.30000000000000004f64.to_bits());
    assert_eq!(add_bits((-0.0f64).to_bits(), (-0.0f64).to_bits()), (-0.0f64).to_bits());
    assert_eq!(add_bits((-0.0f64).to_bits(), 0.0f64.to_bits()), 0.0f64.to_bits());
    assert_eq!(add_bits(1.0f64.to_bits(), (-1.0f64).to_bits()), 0.0f64.to_bits());
    assert_eq!(add_bits(1e300f64.to_bits(), 1.0f64.to_bits()), 1e300f64.to_bits());
    assert_eq!(add_bits(1.0f64.to_bits(), (-1e300f64).to_bits()), (-1e300f64).to_bits());
    assert_eq!(
        add_bits(f64::INFINITY.to_bits(), f64::NEG_INFINITY.to_bits()),
        0x7FF8_0000_0000_0000
    );
}

#[test]
fn differences_agree_with_the_hardware() {
    let values = patterns();
    for (i, a) in values.iter().enumerate() {
        for b in values.iter().skip(i % 11).step_by(11) {
            let theirs = f64::from_bits(*a) - f64::from_bits(*b);
            assert!(same(subtract_bits(*a, *b), theirs), "{:#x} - {:#x}", a, b);
        }
    }
    assert_eq!(subtract_bits(1.0f64.to_bits(), 1.0f64.to_bits()), 0.0f64.to_bits());
    assert_eq!(subtract_bits(0.0f64.to_bits(), 0.0f64.to_bits()), 0.0f64.to_bits());
    assert_eq!(subtract_bits((-0.0f64).to_bits(), 0.0f64.to_bits()), (-0.0f64).to_bits());
    assert_eq!(
        subtract_bits(1.0f64.to_bits(), 0.9999999999999999f64.to_bits()),
        1.1102230246251565e-16f64.to_bits()
    );
}

#[test]
fn quotients_agree_with_the_hardware() {
    let values = patterns();
    for (i, a) in values.iter().enumerate() {
        for b in values.iter().skip(i % 7).step_by(7) {
            let theirs = f64::from_bits(*a) / f64::from_bits(*b);
            assert!(same(divide_bits(*a, *b), theirs), "{:#x} / {:#x}", a, b);
        }
    }
    assert_eq!(divide_bits(1.0f64.to_bits(), 4.0f64.to_bits()), 0.25f64.to_bits());
    assert_eq!(divide_bits(1.0f64.to_bits(), 3.0f64.to_bits()), (1.0f64 / 3.0).to_bits());
    assert_eq!(divide_bits(1.0f64.to_bits(), 0.0f64.to_bits()), f64::INFINITY.to_bits());
    assert_eq!(divide_bits((-1.0f64).to_bits(), 0.0f64.to_bits()), f64::NEG_INFINITY.to_bits());
    assert_eq!(divide_bits(0.0f64.to_bits(), 0.0f64.to_bits()), 0x7FF8_0000_0000_0000);
    assert_eq!(divide_bits(0.0f64.to_bits(), (-2.0f64).to_bits()), (-0.0f64).to_bits());
    assert_eq!(divide_bits(5e-324f64.to_bits(), 2.0f64.to_bits()), 0.0f64.to_bits());
    assert_eq!(divide_bits(1.5e-323f64.to_bits(), 2.0f64.to_bits()), 1e-323f64.to_bits());
}
