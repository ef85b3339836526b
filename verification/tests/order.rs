use std::borrow::Cow;
use std::mem::discriminant;

use protean::DataCell;

/// **NOTE:** DO NOT REORDER THESE!
///
/// Formats that number enum variants encode a cell by the position of its
/// variant; this test pins each variant to its position.
#[test]
fn proper_order() {
    let cells = [
        /* Empty */
        ("Empty", DataCell::empty()),
        /* Slice types */
        ("Text", DataCell::text(Cow::Borrowed(""))),
        ("Bytes", DataCell::bytes(Cow::Borrowed(&[][..]))),
        /* Unsigned integers */
        ("Unsigned8", DataCell::u8(0)),
        ("Unsigned16", DataCell::u16(0)),
        ("Unsigned32", DataCell::u32(0)),
        ("Unsigned64", DataCell::u64(0)),
        ("Unsigned128", DataCell::u128(0)),
        /* Signed integers */
        ("Signed8", DataCell::i8(0)),
        ("Signed16", DataCell::i16(0)),
        ("Signed32", DataCell::i32(0)),
        ("Signed64", DataCell::i64(0)),
        ("Signed128", DataCell::i128(0)),
        /* Floats */
        ("Float32", DataCell::f32_bits(0)),
        ("Float64", DataCell::f64_bits(0)),
    ];
    for (position, (name, cell)) in cells.iter().enumerate() {
        assert!(format!("{:?}", cell).starts_with(name), "{} is built as {:?}", name, cell);
        assert_eq!(
            format!("{:?}", discriminant(cell)),
            format!("Discriminant({})", position),
            "{} moved from position {}",
            name,
            position
        );
    }
}
