use std::borrow::Cow;

use protean::DataCell;

#[test]
fn exact_accessors_agree_with_conversions() {
    let cells = [
        DataCell::u8(200),
        DataCell::u16(60_000),
        DataCell::u32(4_000_000_000),
        DataCell::u64(u64::MAX),
        DataCell::u128(u128::MAX),
        DataCell::i8(-100),
        DataCell::i16(-30_000),
        DataCell::i32(i32::MIN),
        DataCell::i64(i64::MIN),
        DataCell::i128(i128::MIN),
    ];
    for c in cells.iter() {
        if let Some(x) = c.as_u8() {
            assert_eq!(c.try_as_u8(), Some(x));
        }
        if let Some(x) = c.as_u16() {
            assert_eq!(c.try_as_u16(), Some(x));
        }
        if let Some(x) = c.as_u32() {
            assert_eq!(c.try_as_u32(), Some(x));
        }
        if let Some(x) = c.as_u64() {
            assert_eq!(c.try_as_u64(), Some(x));
        }
        if let Some(x) = c.as_u128() {
            assert_eq!(c.try_as_u128(), Some(x));
        }
        if let Some(x) = c.as_i8() {
            assert_eq!(c.try_as_i8(), Some(x));
        }
        if let Some(x) = c.as_i16() {
            assert_eq!(c.try_as_i16(), Some(x));
        }
        if let Some(x) = c.as_i32() {
            assert_eq!(c.try_as_i32(), Some(x));
        }
        if let Some(x) = c.as_i64() {
            assert_eq!(c.try_as_i64(), Some(x));
        }
        if let Some(x) = c.as_i128() {
            assert_eq!(c.try_as_i128(), Some(x));
        }
    }
    let text = DataCell::text(Cow::Borrowed("x"));
    assert_eq!(text.try_as_text(), text.as_text());
    let bytes = DataCell::bytes(Cow::Borrowed(&[0xffu8][..]));
    assert_eq!(bytes.try_as_bytes(), bytes.as_bytes());
    let float = DataCell::f32_bits(0.1f32.to_bits());
    assert_eq!(float.try_as_f32(), float.as_f32());
}

#[test]
fn integer_conversions_depend_on_value_alone() {
    let a = DataCell::u64(100);
    let b = DataCell::i8(100);
    let c = DataCell::u128(100);
    for (x, y) in [(&a, &b), (&b, &c)] {
        assert_eq!(x.try_as_u8(), y.try_as_u8());
        assert_eq!(x.try_as_i8(), y.try_as_i8());
        assert_eq!(x.try_as_u128(), y.try_as_u128());
        assert_eq!(x.try_as_i128(), y.try_as_i128());
    }
    assert_eq!(DataCell::i16(-5).try_as_u32(), DataCell::i128(-5).try_as_u32());
}

#[test]
fn conversions_lose_nothing() {
    let cell = DataCell::u32(70_000);
    assert_eq!(cell.try_as_u16(), None);
    assert_eq!(cell.try_as_i64(), Some(70_000));
    let float = DataCell::f64_bits(70_000.0f64.to_bits());
    assert_eq!(float.try_as_i64(), Some(70_000));
    assert_eq!(float.try_as_u16(), None);
    assert_eq!(DataCell::f64_bits(70_000.5f64.to_bits()).try_as_i64(), None);
}

#[test]
fn equality_is_symmetric_and_reflexive_except_nan() {
    let cells = [
        DataCell::u8(1),
        DataCell::i8(1),
        DataCell::text(Cow::Borrowed("a")),
        DataCell::f32_bits(0.0f32.to_bits()),
        DataCell::f32_bits((-0.0f32).to_bits()),
        DataCell::f32_bits(f32::NAN.to_bits()),
        DataCell::f64_bits(f64::INFINITY.to_bits()),
        DataCell::empty(),
    ];
    for a in cells.iter() {
        let nan = matches!(a.as_f32(), Some(b) if f32::from_bits(b).is_nan());
        assert_eq!(a == a, !nan);
        for b in cells.iter() {
            assert_eq!(a == b, b == a);
        }
    }
}

#[test]
fn equal_cells_convert_alike() {
    let zero = DataCell::f32_bits(0.0f32.to_bits());
    let negative_zero = DataCell::f32_bits((-0.0f32).to_bits());
    assert!(zero == negative_zero);
    assert_eq!(zero.try_as_u8(), negative_zero.try_as_u8());
    assert_eq!(zero.try_as_i128(), negative_zero.try_as_i128());
    let owned = DataCell::text(Cow::Owned(String::from("same")));
    let borrowed = DataCell::text(Cow::Borrowed("same"));
    assert!(owned == borrowed);
    assert_eq!(owned.try_as_bytes(), borrowed.try_as_bytes());
}

#[test]
fn widening_keeps_the_integer() {
    for x in [3.0f32, -7.0, 0.5, 16_777_216.0, f32::MAX, -0.0] {
        let narrow = DataCell::f32_bits(x.to_bits());
        let wide = DataCell::f64_bits(narrow.try_as_f64().unwrap());
        if x.abs() < 1e6 {
            assert_eq!(narrow.try_as_i64(), wide.try_as_i64());
        }
        assert_eq!(f64::from_bits(wide.as_f64().unwrap()), x as f64);
    }
}
