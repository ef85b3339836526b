use std::borrow::Cow;

use protean::DataCell;

#[test]
fn constructors_and_exact_accessors() {
    assert!(matches!(DataCell::empty(), DataCell::Empty));
    assert_eq!(DataCell::u8(7).as_u8(), Some(7));
    assert_eq!(DataCell::u16(700).as_u16(), Some(700));
    assert_eq!(DataCell::u32(70_000).as_u32(), Some(70_000));
    assert_eq!(DataCell::u64(u64::MAX).as_u64(), Some(u64::MAX));
    assert_eq!(DataCell::u128(u128::MAX).as_u128(), Some(u128::MAX));
    assert_eq!(DataCell::i8(-7).as_i8(), Some(-7));
    assert_eq!(DataCell::i16(-700).as_i16(), Some(-700));
    assert_eq!(DataCell::i32(i32::MIN).as_i32(), Some(i32::MIN));
    assert_eq!(DataCell::i64(i64::MIN).as_i64(), Some(i64::MIN));
    assert_eq!(DataCell::i128(i128::MIN).as_i128(), Some(i128::MIN));
    assert_eq!(DataCell::f32_bits(1.5f32.to_bits()).as_f32(), Some(1.5f32.to_bits()));
    assert_eq!(DataCell::f64_bits(2.5f64.to_bits()).as_f64(), Some(2.5f64.to_bits()));
    assert_eq!(DataCell::text(Cow::Borrowed("hi")).as_text(), Some("hi"));
    assert_eq!(DataCell::bytes(Cow::Borrowed(&[1u8, 2][..])).as_bytes(), Some(&[1u8, 2][..]));
}

#[test]
fn exact_accessors_reject_other_variants() {
    let cell = DataCell::u16(5);
    assert_eq!(cell.as_u8(), None);
    assert_eq!(cell.as_u32(), None);
    assert_eq!(cell.as_i16(), None);
    assert_eq!(cell.as_text(), None);
    assert_eq!(cell.as_bytes(), None);
    assert_eq!(cell.as_f32(), None);
    assert_eq!(DataCell::empty().as_u8(), None);
    assert_eq!(DataCell::text(Cow::Borrowed("5")).as_u8(), None);
}

#[test]
fn integer_conversions_keep_in_range_values() {
    assert_eq!(DataCell::u64(255).try_as_u8(), Some(255));
    assert_eq!(DataCell::u64(256).try_as_u8(), None);
    assert_eq!(DataCell::i8(-1).try_as_u8(), None);
    assert_eq!(DataCell::i128(200).try_as_u8(), Some(200));
    assert_eq!(DataCell::u8(200).try_as_u16(), Some(200));
    assert_eq!(DataCell::i32(65_535).try_as_u16(), Some(65_535));
    assert_eq!(DataCell::i32(65_536).try_as_u16(), None);
    assert_eq!(DataCell::u128(u32::MAX as u128).try_as_u32(), Some(u32::MAX));
    assert_eq!(DataCell::u128(u32::MAX as u128 + 1).try_as_u32(), None);
    assert_eq!(DataCell::i64(-1).try_as_u64(), None);
    assert_eq!(DataCell::u128(u64::MAX as u128).try_as_u64(), Some(u64::MAX));
    assert_eq!(DataCell::u128(u128::MAX).try_as_u128(), Some(u128::MAX));
    assert_eq!(DataCell::i128(i128::MAX).try_as_u128(), Some(i128::MAX as u128));
    assert_eq!(DataCell::i128(-1).try_as_u128(), None);
    assert_eq!(DataCell::u8(127).try_as_i8(), Some(127));
    assert_eq!(DataCell::u8(128).try_as_i8(), None);
    assert_eq!(DataCell::i64(-128).try_as_i8(), Some(-128));
    assert_eq!(DataCell::i64(-129).try_as_i8(), None);
    assert_eq!(DataCell::u16(32_767).try_as_i16(), Some(32_767));
    assert_eq!(DataCell::u16(32_768).try_as_i16(), None);
    assert_eq!(DataCell::i128(i32::MIN as i128).try_as_i32(), Some(i32::MIN));
    assert_eq!(DataCell::u32(u32::MAX).try_as_i32(), None);
    assert_eq!(DataCell::u64(i64::MAX as u64).try_as_i64(), Some(i64::MAX));
    assert_eq!(DataCell::u64(u64::MAX).try_as_i64(), None);
    assert_eq!(DataCell::u128(i128::MAX as u128).try_as_i128(), Some(i128::MAX));
    assert_eq!(DataCell::u128(u128::MAX).try_as_i128(), None);
    assert_eq!(DataCell::u64(7).try_as_i128(), Some(7));
}

#[test]
fn conversions_of_non_numbers_are_none() {
    let cells = [
        DataCell::empty(),
        DataCell::text(Cow::Borrowed("12")),
        DataCell::bytes(Cow::Borrowed(&[12u8][..])),
    ];
    for cell in cells.iter() {
        assert_eq!(cell.try_as_u8(), None);
        assert_eq!(cell.try_as_u16(), None);
        assert_eq!(cell.try_as_u32(), None);
        assert_eq!(cell.try_as_u64(), None);
        assert_eq!(cell.try_as_u128(), None);
        assert_eq!(cell.try_as_i8(), None);
        assert_eq!(cell.try_as_i16(), None);
        assert_eq!(cell.try_as_i32(), None);
        assert_eq!(cell.try_as_i64(), None);
        assert_eq!(cell.try_as_i128(), None);
        assert_eq!(cell.try_as_f32(), None);
        assert_eq!(cell.try_as_f64(), None);
    }
}

#[test]
fn text_and_bytes_conversions() {
    let text = DataCell::text(Cow::Borrowed("héllo"));
    assert_eq!(text.try_as_text(), Some("héllo"));
    assert_eq!(text.try_as_bytes(), Some("héllo".as_bytes()));
    assert_eq!(text.as_bytes(), None);

    let valid = DataCell::bytes(Cow::Owned("wörld".as_bytes().to_vec()));
    assert_eq!(valid.try_as_text(), Some("wörld"));
    assert_eq!(valid.as_text(), None);
    assert_eq!(valid.try_as_bytes(), Some("wörld".as_bytes()));

    let invalid = DataCell::bytes(Cow::Borrowed(&[0xffu8, 0xfe][..]));
    assert_eq!(invalid.try_as_text(), None);
    let overlong = DataCell::bytes(Cow::Borrowed(&[0xc0u8, 0x80][..]));
    assert_eq!(overlong.try_as_text(), None);
    let surrogate = DataCell::bytes(Cow::Borrowed(&[0xedu8, 0xa0, 0x80][..]));
    assert_eq!(surrogate.try_as_text(), None);

    assert_eq!(DataCell::u8(1).try_as_text(), None);
    assert_eq!(DataCell::u8(1).try_as_bytes(), None);
}

#[test]
fn text_bytes_round_trip() {
    let original = "grüße, 世界 🦀";
    let cell = DataCell::text(Cow::Borrowed(original));
    let bytes = cell.try_as_bytes().unwrap();
    let back = DataCell::bytes(Cow::Borrowed(bytes));
    assert_eq!(back.try_as_text(), Some(original));
    let again = DataCell::text(Cow::Borrowed(back.try_as_text().unwrap()));
    assert_eq!(again.try_as_bytes(), Some(original.as_bytes()));
}

#[test]
fn cloned_owns_its_data() {
    let buffer = String::from("borrowed text");
    let cell = DataCell::text(Cow::Borrowed(buffer.as_str()));
    assert!(cell.borrows_data());
    let owned: DataCell<'static> = cell.cloned();
    assert!(!owned.borrows_data());
    assert!(matches!(owned, DataCell::Text(Cow::Owned(_))));
    assert_eq!(owned.as_text(), Some("borrowed text"));
    drop(cell);
    drop(buffer);
    assert_eq!(owned.as_text(), Some("borrowed text"));

    let bytes = vec![1u8, 2, 3];
    let cell = DataCell::bytes(Cow::Borrowed(&bytes[..]));
    let owned = cell.cloned();
    assert!(matches!(owned, DataCell::Bytes(Cow::Owned(_))));
    assert_eq!(owned.as_bytes(), Some(&[1u8, 2, 3][..]));

    assert_eq!(DataCell::i32(-5).cloned().as_i32(), Some(-5));
    assert_eq!(DataCell::f64_bits(3.0f64.to_bits()).cloned().as_f64(), Some(3.0f64.to_bits()));
    assert!(matches!(DataCell::empty().cloned(), DataCell::Empty));
}

#[test]
fn clone_shares_borrowed_data() {
    let buffer = String::from("shared");
    let cell = DataCell::text(Cow::Borrowed(buffer.as_str()));
    let copy = cell.clone();
    assert!(copy.borrows_data());
    match (&cell, &copy) {
        (DataCell::Text(Cow::Borrowed(a)), DataCell::Text(Cow::Borrowed(b))) => {
            assert_eq!(a.as_ptr(), b.as_ptr());
        }
        _ => panic!("clone changed the variant"),
    }
    let owned = DataCell::text(Cow::Owned(String::from("mine")));
    assert!(!owned.clone().borrows_data());
    assert!(!DataCell::u8(1).borrows_data());
}

#[test]
fn from_conversions() {
    assert!(matches!(DataCell::from(()), DataCell::Empty));
    assert_eq!(DataCell::from(String::from("s")).as_text(), Some("s"));
    assert_eq!(DataCell::from("t").as_text(), Some("t"));
    assert!(matches!(DataCell::from("t"), DataCell::Text(Cow::Borrowed(_))));
    let boxed: Box<str> = "boxed".into();
    assert_eq!(DataCell::from(boxed).as_text(), Some("boxed"));
    assert_eq!(DataCell::from(vec![9u8]).as_bytes(), Some(&[9u8][..]));
    let boxed_bytes: Box<[u8]> = vec![4u8, 5].into_boxed_slice();
    assert_eq!(DataCell::from(boxed_bytes).as_bytes(), Some(&[4u8, 5][..]));
    assert_eq!(DataCell::from(&[6u8][..]).as_bytes(), Some(&[6u8][..]));
    assert_eq!(DataCell::from(1u8).as_u8(), Some(1));
    assert_eq!(DataCell::from(2u16).as_u16(), Some(2));
    assert_eq!(DataCell::from(3u32).as_u32(), Some(3));
    assert_eq!(DataCell::from(4u64).as_u64(), Some(4));
    assert_eq!(DataCell::from(5u128).as_u128(), Some(5));
    assert_eq!(DataCell::from(-1i8).as_i8(), Some(-1));
    assert_eq!(DataCell::from(-2i16).as_i16(), Some(-2));
    assert_eq!(DataCell::from(-3i32).as_i32(), Some(-3));
    assert_eq!(DataCell::from(-4i64).as_i64(), Some(-4));
    assert_eq!(DataCell::from(-5i128).as_i128(), Some(-5));
}

#[test]
fn equality_of_cells() {
    assert!(DataCell::u8(1) == DataCell::u8(1));
    assert!(DataCell::u8(1) != DataCell::u16(1));
    assert!(DataCell::u8(1) != DataCell::u8(2));
    assert!(DataCell::empty() == DataCell::empty());
    let owned = DataCell::text(Cow::Owned(String::from("abc")));
    let borrowed = DataCell::text(Cow::Borrowed("abc"));
    assert!(owned == borrowed);
    assert!(borrowed != DataCell::text(Cow::Borrowed("abd")));
    assert!(DataCell::bytes(Cow::Borrowed(&[1u8][..])) == DataCell::from(vec![1u8]));
    assert!(DataCell::bytes(Cow::Borrowed(&[1u8][..])) != DataCell::from(vec![1u8, 0]));
    assert!(DataCell::text(Cow::Borrowed("a")) != DataCell::bytes(Cow::Borrowed(&[b'a'][..])));
}

#[test]
fn float_equality_follows_ieee() {
    let nan = DataCell::f32_bits(f32::NAN.to_bits());
    assert!(nan != nan.clone());
    let zero = DataCell::f32_bits(0.0f32.to_bits());
    let negative_zero = DataCell::f32_bits((-0.0f32).to_bits());
    assert!(zero == negative_zero);
    assert!(DataCell::f64_bits(0.0f64.to_bits()) == DataCell::f64_bits((-0.0f64).to_bits()));
    assert!(DataCell::f64_bits(f64::NAN.to_bits()) != DataCell::f64_bits(f64::NAN.to_bits()));
    assert!(DataCell::f64_bits(f64::INFINITY.to_bits()) == DataCell::f64_bits(f64::INFINITY.to_bits()));
    assert!(DataCell::f64_bits(f64::INFINITY.to_bits()) != DataCell::f64_bits(f64::NEG_INFINITY.to_bits()));
    assert!(DataCell::f32_bits(1.0f32.to_bits()) != DataCell::f64_bits(1.0f64.to_bits()));
    assert!(DataCell::f32_bits(1.5f32.to_bits()) == DataCell::f32_bits(1.5f32.to_bits()));
}

#[test]
fn float_equality_matches_std_on_many_patterns() {
    let samples: Vec<u32> = (0..2000u32)
        .map(|i| i.wrapping_mul(2_654_435_761))
        .chain([0, 0x8000_0000, 0x7f80_0000, 0xff80_0000, 0x7fc0_0000, 1, 0x8000_0001])
        .collect();
    for &a in samples.iter().take(300) {
        for &b in samples.iter().take(300) {
            let expected = f32::from_bits(a) == f32::from_bits(b);
            assert_eq!(DataCell::f32_bits(a) == DataCell::f32_bits(b), expected, "{:x} {:x}", a, b);
        }
    }
    for i in 0..2000u64 {
        let a = i.wrapping_mul(0x9e37_79b9_7f4a_7c15);
        let b = a ^ 0x8000_0000_0000_0000;
        let expected = f64::from_bits(a) == f64::from_bits(b);
        assert_eq!(DataCell::f64_bits(a) == DataCell::f64_bits(b), expected);
        assert_eq!(DataCell::f64_bits(a) == DataCell::f64_bits(a), !f64::from_bits(a).is_nan());
    }
}
