use protean::DataCell;

const F32_MAX_EXACT: f32 = 16_777_215.0;
const F64_MAX_EXACT: f64 = 9_007_199_254_740_991.0;

fn integral_f32(num: f32, lo: f32, hi: f32) -> Option<f64> {
    if num >= lo && num <= hi && num.trunc() == num {
        Some(num as f64)
    } else {
        None
    }
}

fn integral_f64(num: f64, lo: f64, hi: f64) -> Option<f64> {
    if num >= lo && num <= hi && num.trunc() == num {
        Some(num)
    } else {
        None
    }
}

/// Bit patterns spread over the whole space, plus the special ones.
fn f32_samples() -> Vec<u32> {
    let mut v: Vec<u32> = (0..200_000u32).map(|i| i.wrapping_mul(21_473)).collect();
    for x in [
        0.0f32, -0.0, 1.0, -1.0, 0.5, 255.0, 255.5, 256.0, -128.0, -129.0, 127.0, 65_535.0, 65_536.0,
        -32_768.0, 32_767.0, 16_777_215.0, 16_777_216.0, -16_777_215.0, -16_777_216.0, 1e10, -1e10,
        f32::MAX, f32::MIN, f32::MIN_POSITIVE, f32::EPSILON, f32::INFINITY, f32::NEG_INFINITY,
        f32::NAN, 4_294_967_295.0, 2_147_483_648.0, -2_147_483_648.0,
    ] {
        v.push(x.to_bits());
    }
    for i in 0..=130u32 {
        v.push(i << 23);
        v.push((i + 120) << 23 | 0x40_0000);
        v.push(0x8000_0000 | (i + 120) << 23);
    }
    v.push(1);
    v.push(0x7f_ffff);
    v
}

fn f64_samples() -> Vec<u64> {
    let mut v: Vec<u64> = (0..200_000u64).map(|i| i.wrapping_mul(0x9e37_79b9_7f4a_7c15)).collect();
    for x in [
        0.0f64, -0.0, 1.0, -1.0, 0.5, 255.0, 255.5, 256.0, -128.0, -129.0, 65_535.0, 65_536.0,
        4_294_967_295.0, 4_294_967_296.0, -2_147_483_648.0, 2_147_483_647.0, 2_147_483_648.0,
        -2_147_483_649.0, 9_007_199_254_740_991.0, 9_007_199_254_740_992.0, -9_007_199_254_740_991.0,
        -9_007_199_254_740_992.0, 1e300, f64::MAX, f64::MIN, f64::MIN_POSITIVE, f64::INFINITY,
        f64::NEG_INFINITY, f64::NAN,
    ] {
        v.push(x.to_bits());
    }
    for i in 0..=1100u64 {
        v.push(i << 52);
        v.push(0x8000_0000_0000_0000 | i << 52 | 0x8_0000_0000_0000);
    }
    v
}

#[test]
fn f32_to_integers_matches_float_comparisons() {
    for bits in f32_samples() {
        let num = f32::from_bits(bits);
        let cell = DataCell::f32_bits(bits);
        assert_eq!(cell.try_as_u8().map(|x| x as f64), integral_f32(num, 0.0, 255.0), "{:x}", bits);
        assert_eq!(cell.try_as_u16().map(|x| x as f64), integral_f32(num, 0.0, 65_535.0), "{:x}", bits);
        assert_eq!(cell.try_as_u32().map(|x| x as f64), integral_f32(num, 0.0, F32_MAX_EXACT), "{:x}", bits);
        assert_eq!(cell.try_as_u64().map(|x| x as f64), integral_f32(num, 0.0, F32_MAX_EXACT), "{:x}", bits);
        assert_eq!(cell.try_as_u128().map(|x| x as f64), integral_f32(num, 0.0, F32_MAX_EXACT), "{:x}", bits);
        assert_eq!(cell.try_as_i8().map(|x| x as f64), integral_f32(num, -128.0, 127.0), "{:x}", bits);
        assert_eq!(cell.try_as_i16().map(|x| x as f64), integral_f32(num, -32_768.0, 32_767.0), "{:x}", bits);
        assert_eq!(
            cell.try_as_i32().map(|x| x as f64),
            integral_f32(num, -F32_MAX_EXACT, F32_MAX_EXACT),
            "{:x}",
            bits
        );
        assert_eq!(
            cell.try_as_i64().map(|x| x as f64),
            integral_f32(num, -F32_MAX_EXACT, F32_MAX_EXACT),
            "{:x}",
            bits
        );
        assert_eq!(
            cell.try_as_i128().map(|x| x as f64),
            integral_f32(num, -F32_MAX_EXACT, F32_MAX_EXACT),
            "{:x}",
            bits
        );
    }
}

#[test]
fn f64_to_integers_matches_float_comparisons() {
    for bits in f64_samples() {
        let num = f64::from_bits(bits);
        let cell = DataCell::f64_bits(bits);
        assert_eq!(cell.try_as_u8().map(|x| x as f64), integral_f64(num, 0.0, 255.0), "{:x}", bits);
        assert_eq!(cell.try_as_u16().map(|x| x as f64), integral_f64(num, 0.0, 65_535.0), "{:x}", bits);
        assert_eq!(cell.try_as_u32().map(|x| x as f64), integral_f64(num, 0.0, 4_294_967_295.0), "{:x}", bits);
        assert_eq!(cell.try_as_u64().map(|x| x as f64), integral_f64(num, 0.0, F64_MAX_EXACT), "{:x}", bits);
        assert_eq!(cell.try_as_u128().map(|x| x as f64), integral_f64(num, 0.0, F64_MAX_EXACT), "{:x}", bits);
        assert_eq!(cell.try_as_i8().map(|x| x as f64), integral_f64(num, -128.0, 127.0), "{:x}", bits);
        assert_eq!(cell.try_as_i16().map(|x| x as f64), integral_f64(num, -32_768.0, 32_767.0), "{:x}", bits);
        assert_eq!(
            cell.try_as_i32().map(|x| x as f64),
            integral_f64(num, -2_147_483_648.0, 2_147_483_647.0),
            "{:x}",
            bits
        );
        assert_eq!(
            cell.try_as_i64().map(|x| x as f64),
            integral_f64(num, -F64_MAX_EXACT, F64_MAX_EXACT),
            "{:x}",
            bits
        );
        assert_eq!(
            cell.try_as_i128().map(|x| x as f64),
            integral_f64(num, -F64_MAX_EXACT, F64_MAX_EXACT),
            "{:x}",
            bits
        );
    }
}

#[test]
fn float_to_integer_edge_cases() {
    let f = |x: f32| DataCell::f32_bits(x.to_bits());
    let d = |x: f64| DataCell::f64_bits(x.to_bits());
    assert_eq!(f(255.0).try_as_u8(), Some(255));
    assert_eq!(f(255.5).try_as_u8(), None);
    assert_eq!(f(-0.0).try_as_u8(), Some(0));
    assert_eq!(f(f32::NAN).try_as_u8(), None);
    assert_eq!(f(f32::INFINITY).try_as_u64(), None);
    assert_eq!(f(16_777_215.0).try_as_u32(), Some(16_777_215));
    assert_eq!(f(16_777_216.0).try_as_u32(), None);
    assert_eq!(f(-16_777_215.0).try_as_i64(), Some(-16_777_215));
    assert_eq!(f(-16_777_216.0).try_as_i64(), None);
    assert_eq!(d(4_294_967_295.0).try_as_u32(), Some(u32::MAX));
    assert_eq!(d(9_007_199_254_740_991.0).try_as_u64(), Some(9_007_199_254_740_991));
    assert_eq!(d(9_007_199_254_740_992.0).try_as_u64(), None);
    assert_eq!(d(-2_147_483_648.0).try_as_i32(), Some(i32::MIN));
    assert_eq!(d(0.5).try_as_i32(), None);
    assert_eq!(d(-1.0).try_as_u16(), None);
    assert_eq!(d(f64::MIN_POSITIVE).try_as_i128(), None);
}

#[test]
fn integers_to_f32_match_std() {
    for n in 0..=u16::MAX {
        assert_eq!(DataCell::u16(n).try_as_f32(), Some(f32::from(n).to_bits()));
        assert_eq!(DataCell::u64(n as u64).try_as_f32(), Some(f32::from(n).to_bits()));
        assert_eq!(DataCell::u128(n as u128).try_as_f32(), Some(f32::from(n).to_bits()));
    }
    for n in i16::MIN..=i16::MAX {
        assert_eq!(DataCell::i16(n).try_as_f32(), Some(f32::from(n).to_bits()));
        assert_eq!(DataCell::i32(n as i32).try_as_f32(), Some(f32::from(n).to_bits()));
        assert_eq!(DataCell::i128(n as i128).try_as_f32(), Some(f32::from(n).to_bits()));
    }
    for n in 0..=u8::MAX {
        assert_eq!(DataCell::u8(n).try_as_f32(), Some(f32::from(n).to_bits()));
    }
    for n in i8::MIN..=i8::MAX {
        assert_eq!(DataCell::i8(n).try_as_f32(), Some(f32::from(n).to_bits()));
    }
    assert_eq!(DataCell::u32(255).try_as_f32(), Some(255.0f32.to_bits()));
    assert_eq!(DataCell::u32(u32::MAX).try_as_f32(), None);
    assert_eq!(DataCell::u32(65_536).try_as_f32(), None);
    assert_eq!(DataCell::i32(-32_769).try_as_f32(), None);
    assert_eq!(DataCell::i64(32_768).try_as_f32(), None);
    assert_eq!(DataCell::f32_bits(1.25f32.to_bits()).try_as_f32(), Some(1.25f32.to_bits()));
    assert_eq!(DataCell::f32_bits(f32::NAN.to_bits()).try_as_f32(), Some(f32::NAN.to_bits()));
    assert_eq!(DataCell::f64_bits(1.0f64.to_bits()).try_as_f32(), None);
}

#[test]
fn integers_to_f64_match_std() {
    let mut samples: Vec<u32> = (0..100_000u32).map(|i| i.wrapping_mul(42_949)).collect();
    samples.extend([0, 1, u32::MAX, u32::MAX - 1, 1 << 31, 255]);
    for &n in samples.iter() {
        let expected = Some(f64::from(n).to_bits());
        let expected_u32 = if n <= u16::MAX as u32 { expected } else { None };
        assert_eq!(DataCell::u32(n).try_as_f64(), expected_u32);
        assert_eq!(DataCell::u64(n as u64).try_as_f64(), expected);
        assert_eq!(DataCell::u128(n as u128).try_as_f64(), expected);
        let s = n as i32;
        let expected = Some(f64::from(s).to_bits());
        assert_eq!(DataCell::i32(s).try_as_f64(), expected);
        assert_eq!(DataCell::i64(s as i64).try_as_f64(), expected);
        assert_eq!(DataCell::i128(s as i128).try_as_f64(), expected);
    }
    for n in 0..=u16::MAX {
        assert_eq!(DataCell::u16(n).try_as_f64(), Some(f64::from(n).to_bits()));
        assert_eq!(DataCell::i16(n as i16).try_as_f64(), Some(f64::from(n as i16).to_bits()));
    }
    for n in 0..=u8::MAX {
        assert_eq!(DataCell::u8(n).try_as_f64(), Some(f64::from(n).to_bits()));
        assert_eq!(DataCell::i8(n as i8).try_as_f64(), Some(f64::from(n as i8).to_bits()));
    }
    assert_eq!(DataCell::u32(255).try_as_f64(), Some(255.0f64.to_bits()));
    assert_eq!(DataCell::u32(u32::MAX).try_as_f64(), None);
    assert_eq!(DataCell::u32(65_535).try_as_f64(), Some(65_535.0f64.to_bits()));
    assert_eq!(DataCell::u32(65_536).try_as_f64(), None);
    assert_eq!(DataCell::u64(u32::MAX as u64).try_as_f64(), Some(4_294_967_295.0f64.to_bits()));
    assert_eq!(DataCell::u64(u32::MAX as u64 + 1).try_as_f64(), None);
    assert_eq!(DataCell::i64(i32::MIN as i64 - 1).try_as_f64(), None);
    assert_eq!(DataCell::i128(i128::MAX).try_as_f64(), None);
    assert_eq!(DataCell::f64_bits(2.75f64.to_bits()).try_as_f64(), Some(2.75f64.to_bits()));
}

#[test]
fn f32_to_f64_widening_matches_std() {
    for bits in f32_samples() {
        let num = f32::from_bits(bits);
        let widened = DataCell::f32_bits(bits).try_as_f64().expect("a binary32 number widens");
        let expected = f64::from(num);
        if num.is_nan() {
            let got = f64::from_bits(widened);
            assert!(got.is_nan(), "{:x}", bits);
            assert_eq!(got.is_sign_negative(), num.is_sign_negative());
        } else {
            assert_eq!(widened, expected.to_bits(), "{:x}", bits);
        }
    }
}

#[test]
fn integer_float_integer_round_trip() {
    for n in [0i64, 1, -1, 300, -32_768, 32_767, 65_535] {
        let cell = DataCell::i64(n);
        if let Some(bits) = cell.try_as_f32() {
            assert_eq!(DataCell::f32_bits(bits).try_as_i64(), Some(n));
            assert_eq!(DataCell::f32_bits(bits).try_as_u8(), cell.try_as_u8());
        }
        let bits = cell.try_as_f64().unwrap();
        assert_eq!(DataCell::f64_bits(bits).try_as_i64(), Some(n));
        assert_eq!(DataCell::f64_bits(bits).try_as_u16(), cell.try_as_u16());
    }
    let big = DataCell::u64(4_000_000_000);
    let bits = big.try_as_f64().unwrap();
    assert_eq!(DataCell::f64_bits(bits).try_as_u32(), Some(4_000_000_000));
    assert_eq!(DataCell::f64_bits(bits).try_as_i32(), None);
}

#[test]
fn f32_conversion_widens_to_f64() {
    let cells = [
        DataCell::u8(7),
        DataCell::u16(65_535),
        DataCell::u32(65_535),
        DataCell::u64(300),
        DataCell::u128(0),
        DataCell::i8(-128),
        DataCell::i16(-32_768),
        DataCell::i32(32_767),
        DataCell::i64(-1),
        DataCell::i128(12),
        DataCell::f32_bits(0.1f32.to_bits()),
        DataCell::f32_bits((-0.0f32).to_bits()),
        DataCell::f32_bits(f32::INFINITY.to_bits()),
    ];
    for c in cells.iter() {
        let narrow = c.try_as_f32().expect("converts to binary32");
        let wide = c.try_as_f64().expect("converts to binary64 too");
        assert_eq!(wide, f64::from(f32::from_bits(narrow)).to_bits());
    }
}
