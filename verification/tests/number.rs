use rusty_hermes::Number;

fn num(x: f64) -> Number {
    Number::from_bits(x.to_bits())
}

fn float(n: Number) -> f64 {
    f64::from_bits(n.bits())
}

/// A sequence of 64-bit patterns that covers the edges and a spread of
/// the middle.
fn patterns() -> Vec<u64> {
    let mut out = vec![
        0,
        1,
        2,
        (1 << 52) - 1,
        1 << 52,
        (1 << 52) + 1,
        (1 << 53) - 1,
        1 << 53,
        (1 << 53) + 1,
        (1 << 53) + 2,
        (1 << 53) + 3,
        (1 << 54) + 2,
        (1 << 54) + 6,
        (1 << 63) - 1,
        1 << 63,
        (1 << 63) + 1,
        u64::MAX - 1,
        u64::MAX,
        0x7ff0_0000_0000_0000,
        0xfff0_0000_0000_0000,
        0x7ff8_0000_0000_0000,
        0x7ff0_0000_0000_0001,
        0xffff_ffff_ffff_ffff,
        0x8000_0000_0000_0000,
        0x000f_ffff_ffff_ffff,
        0x0010_0000_0000_0000,
    ];
    let mut state: u64 = 0x9e37_79b9_7f4a_7c15;
    for _ in 0..20_000 {
        state ^= state << 13;
        state ^= state >> 7;
        state ^= state << 17;
        out.push(state);
        out.push(state >> (state % 64));
    }
    out
}

#[test]
fn integers_become_the_doubles_the_machine_makes() {
    for p in patterns() {
        assert_eq!(Number::from_u64(p).bits(), (p as f64).to_bits(), "u64 {p}");
        assert_eq!(Number::from_i64(p as i64).bits(), (p as i64 as f64).to_bits(), "i64 {p}");
        assert_eq!(Number::from_u32(p as u32).bits(), (p as u32 as f64).to_bits());
        assert_eq!(Number::from_i32(p as i32).bits(), (p as i32 as f64).to_bits());
        assert_eq!(Number::from_u16(p as u16).bits(), (p as u16 as f64).to_bits());
        assert_eq!(Number::from_i16(p as i16).bits(), (p as i16 as f64).to_bits());
        assert_eq!(Number::from_u8(p as u8).bits(), (p as u8 as f64).to_bits());
        assert_eq!(Number::from_i8(p as i8).bits(), (p as i8 as f64).to_bits());
        assert_eq!(Number::from_usize(p as usize).bits(), (p as usize as f64).to_bits());
        assert_eq!(Number::from_isize(p as isize).bits(), (p as isize as f64).to_bits());
    }
}

#[test]
fn doubles_become_the_integers_the_machine_makes() {
    for p in patterns() {
        let x = f64::from_bits(p);
        let n = Number::from_bits(p);
        assert_eq!(n.to_u64(), x as u64, "u64 of {x}");
        assert_eq!(n.to_i64(), x as i64, "i64 of {x}");
        assert_eq!(n.to_u32(), x as u32, "u32 of {x}");
        assert_eq!(n.to_i32(), x as i32, "i32 of {x}");
        assert_eq!(n.to_u16(), x as u16, "u16 of {x}");
        assert_eq!(n.to_i16(), x as i16, "i16 of {x}");
        assert_eq!(n.to_u8(), x as u8, "u8 of {x}");
        assert_eq!(n.to_i8(), x as i8, "i8 of {x}");
        assert_eq!(n.to_usize(), x as usize, "usize of {x}");
        assert_eq!(n.to_isize(), x as isize, "isize of {x}");
    }
}

#[test]
fn doubles_near_integers_are_cut_towards_zero() {
    for (x, expected) in [
        (0.0, 0),
        (-0.0, 0),
        (0.5, 0),
        (-0.5, 0),
        (0.999999, 0),
        (1.0, 1),
        (1.5, 1),
        (-1.5, -1),
        (3.99, 3),
        (-3.99, -3),
        (2147483647.0, 2147483647),
        (2147483647.5, 2147483647),
        (2147483648.0, 2147483647),
        (-2147483648.0, -2147483648),
        (-2147483649.0, -2147483648),
        (1e300, i32::MAX),
        (-1e300, i32::MIN),
        (f64::INFINITY, i32::MAX),
        (f64::NEG_INFINITY, i32::MIN),
        (f64::NAN, 0),
        (f64::MIN_POSITIVE, 0),
        (5e-324, 0),
    ] {
        assert_eq!(num(x).to_i32(), expected, "{x}");
    }
}

#[test]
fn exact_values_of_the_encoding() {
    assert_eq!(Number::from_i32(0).bits(), 0);
    assert_eq!(Number::from_i32(1).bits(), 0x3ff0_0000_0000_0000);
    assert_eq!(Number::from_i32(-1).bits(), 0xbff0_0000_0000_0000);
    assert_eq!(Number::from_i32(2).bits(), 0x4000_0000_0000_0000);
    assert_eq!(Number::from_i32(3).bits(), 0x4008_0000_0000_0000);
    assert_eq!(Number::from_u8(255).bits(), 0x406f_e000_0000_0000);
    assert_eq!(Number::from_u64(1 << 53).bits(), 0x4340_0000_0000_0000);
    // Ties go to the even neighbour.
    assert_eq!(float(Number::from_u64((1 << 53) + 1)), 9007199254740992.0);
    assert_eq!(float(Number::from_u64((1 << 53) + 3)), 9007199254740996.0);
    assert_eq!(float(Number::from_u64(u64::MAX)), 18446744073709551616.0);
    assert_eq!(float(Number::from_i64(i64::MIN)), -9223372036854775808.0);
    assert_eq!(float(Number::from_i64(i64::MAX)), 9223372036854775808.0);
}

#[test]
fn small_integers_survive_the_round_trip() {
    for x in i8::MIN..=i8::MAX {
        assert_eq!(Number::from_i8(x).to_i8(), x);
    }
    for x in u8::MIN..=u8::MAX {
        assert_eq!(Number::from_u8(x).to_u8(), x);
    }
    for x in i16::MIN..=i16::MAX {
        assert_eq!(Number::from_i16(x).to_i16(), x);
    }
    for x in u16::MIN..=u16::MAX {
        assert_eq!(Number::from_u16(x).to_u16(), x);
    }
    for x in [i32::MIN, i32::MIN + 1, -65537, -1, 0, 1, 65536, i32::MAX - 1, i32::MAX] {
        assert_eq!(Number::from_i32(x).to_i32(), x);
    }
    for x in [0, 1, 65536, 0x8000_0000, u32::MAX - 1, u32::MAX] {
        assert_eq!(Number::from_u32(x).to_u32(), x);
    }
    let limit: i64 = 1 << 53;
    for x in [-(limit - 1), -1, 0, 1, limit - 1] {
        assert_eq!(Number::from_i64(x).to_i64(), x);
        assert_eq!(Number::from_isize(x as isize).to_isize(), x as isize);
    }
    for x in [0u64, 1, (1 << 53) - 1] {
        assert_eq!(Number::from_u64(x).to_u64(), x);
        assert_eq!(Number::from_usize(x as usize).to_usize(), x as usize);
    }
}

#[test]
fn wide_integers_beyond_the_doubles_come_back_as_a_neighbour() {
    let x: u64 = (1 << 53) + 1;
    assert_eq!(Number::from_u64(x).to_u64(), 1 << 53);
    assert_eq!(Number::from_u64(u64::MAX).to_u64(), u64::MAX);
    assert_eq!(Number::from_i64(i64::MAX).to_i64(), i64::MAX);
    assert_eq!(Number::from_i64(i64::MIN).to_i64(), i64::MIN);
}

#[test]
fn narrowing_cuts_to_the_range() {
    assert_eq!(Number::from_i32(300).to_u8(), 255);
    assert_eq!(Number::from_i32(-1).to_u8(), 0);
    assert_eq!(Number::from_i32(200).to_i8(), 127);
    assert_eq!(Number::from_i32(-200).to_i8(), -128);
    assert_eq!(Number::from_i32(70000).to_u16(), 65535);
    assert_eq!(Number::from_i32(-70000).to_i16(), -32768);
    assert_eq!(Number::from_i64(-5).to_u64(), 0);
    assert_eq!(Number::from_u64(u64::MAX).to_i32(), i32::MAX);
}

#[test]
fn classification() {
    assert!(num(f64::NAN).is_nan());
    assert!(!num(f64::INFINITY).is_nan());
    assert!(!num(1.0).is_nan());
    assert!(num(0.0).is_zero());
    assert!(num(-0.0).is_zero());
    assert!(!num(5e-324).is_zero());
    assert!(num(-0.0).is_negative());
    assert!(num(-1.0).is_negative());
    assert!(!num(1.0).is_negative());
    for p in patterns() {
        let x = f64::from_bits(p);
        let n = Number::from_bits(p);
        assert_eq!(n.is_nan(), x.is_nan());
        assert_eq!(n.is_zero(), x == 0.0);
        assert_eq!(n.is_negative(), x.is_sign_negative());
    }
}

#[test]
fn same_is_the_equality_of_doubles() {
    let samples = [
        0.0,
        -0.0,
        1.0,
        -1.0,
        1.5,
        f64::INFINITY,
        f64::NEG_INFINITY,
        f64::NAN,
        f64::MIN_POSITIVE,
        f64::MAX,
    ];
    for a in samples {
        for b in samples {
            assert_eq!(num(a).same(&num(b)), a == b, "{a} == {b}");
        }
    }
}
