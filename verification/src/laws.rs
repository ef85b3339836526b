//! Properties that hold across the conversions of [`DataCell`].
use vstd::prelude::*;
use vstd::utf8::*;

use crate::binary::{
    dyadic_same, f32_equal, f32_exponent, f32_integral, f32_significand, f64_equal, f64_exponent,
    f64_integral, f64_significand, f64_widens, lemma_dyadic_same_integer, lemma_dyadic_same_refl,
    lemma_dyadic_same_symmetric, lemma_dyadic_zero, lemma_f32_equal_by_integral, lemma_f64_equal_by_integral,
    lemma_same_integer_widens,
};
use crate::cell::{CellValue, DataCell};
use std::borrow::Cow;

verus! {

/// A cell gives back what it was built with: the exact accessor of its
/// variant returns the value, and every other exact accessor returns
/// nothing.
pub proof fn lemma_built_value_read_back(c: CellValue)
    ensures
        c matches CellValue::Unsigned8(x) ==> c.as_u8() == Some(x),
        c.as_u8() is Some ==> c is Unsigned8,
        c matches CellValue::Unsigned16(x) ==> c.as_u16() == Some(x),
        c.as_u16() is Some ==> c is Unsigned16,
        c matches CellValue::Unsigned32(x) ==> c.as_u32() == Some(x),
        c.as_u32() is Some ==> c is Unsigned32,
        c matches CellValue::Unsigned64(x) ==> c.as_u64() == Some(x),
        c.as_u64() is Some ==> c is Unsigned64,
        c matches CellValue::Unsigned128(x) ==> c.as_u128() == Some(x),
        c.as_u128() is Some ==> c is Unsigned128,
        c matches CellValue::Signed8(x) ==> c.as_i8() == Some(x),
        c.as_i8() is Some ==> c is Signed8,
        c matches CellValue::Signed16(x) ==> c.as_i16() == Some(x),
        c.as_i16() is Some ==> c is Signed16,
        c matches CellValue::Signed32(x) ==> c.as_i32() == Some(x),
        c.as_i32() is Some ==> c is Signed32,
        c matches CellValue::Signed64(x) ==> c.as_i64() == Some(x),
        c.as_i64() is Some ==> c is Signed64,
        c matches CellValue::Signed128(x) ==> c.as_i128() == Some(x),
        c.as_i128() is Some ==> c is Signed128,
        c matches CellValue::Float32(x) ==> c.as_f32() == Some(x),
        c.as_f32() is Some ==> c is Float32,
        c matches CellValue::Float64(x) ==> c.as_f64() == Some(x),
        c.as_f64() is Some ==> c is Float64,
        c matches CellValue::Text(x) ==> c.as_text() == Some(x),
        c.as_text() is Some ==> c is Text,
        c matches CellValue::Bytes(x) ==> c.as_bytes() == Some(x),
        c.as_bytes() is Some ==> c is Bytes,
{
}

/// Whatever an exact accessor (`as_u8`, `as_text`, ...) returns, the
/// matching lossless conversion (`try_as_u8`, `try_as_text`, ...) returns
/// too.
pub proof fn lemma_exact_accessors_agree(c: CellValue)
    ensures
        c.as_u8() matches Some(n) ==> c.to_u8() == Some(n as int),
        c.as_u16() matches Some(n) ==> c.to_u16() == Some(n as int),
        c.as_u32() matches Some(n) ==> c.to_u32() == Some(n as int),
        c.as_u64() matches Some(n) ==> c.to_u64() == Some(n as int),
        c.as_u128() matches Some(n) ==> c.to_u128() == Some(n as int),
        c.as_i8() matches Some(n) ==> c.to_i8() == Some(n as int),
        c.as_i16() matches Some(n) ==> c.to_i16() == Some(n as int),
        c.as_i32() matches Some(n) ==> c.to_i32() == Some(n as int),
        c.as_i64() matches Some(n) ==> c.to_i64() == Some(n as int),
        c.as_i128() matches Some(n) ==> c.to_i128() == Some(n as int),
        c.as_text() is Some ==> c.text_of() == c.as_text(),
        c.as_bytes() is Some ==> c.bytes_of() == c.as_bytes(),
{
}

/// Conversions lose nothing: whatever integer a conversion returns is the
/// integer the cell holds, or that its floating-point number denotes.
pub proof fn lemma_conversions_lossless(c: CellValue, x: int)
    ensures
        c.to_u8() == Some(x) ==> c.integral() == Some(x),
        c.to_u16() == Some(x) ==> c.integral() == Some(x),
        c.to_u32() == Some(x) ==> c.integral() == Some(x),
        c.to_u64() == Some(x) ==> c.integral() == Some(x),
        c.to_u128() == Some(x) ==> c.integral() == Some(x),
        c.to_i8() == Some(x) ==> c.integral() == Some(x),
        c.to_i16() == Some(x) ==> c.integral() == Some(x),
        c.to_i32() == Some(x) ==> c.integral() == Some(x),
        c.to_i64() == Some(x) ==> c.integral() == Some(x),
        c.to_i128() == Some(x) ==> c.integral() == Some(x),
{
}

/// Integer cells convert by value alone: two integer cells holding the
/// same number, whatever their widths, convert to every integer type
/// alike.
pub proof fn lemma_integer_conversion_by_value(c: CellValue, d: CellValue)
    requires
        c.integer() is Some,
        c.integer() == d.integer(),
    ensures
        c.to_u8() == d.to_u8(),
        c.to_u16() == d.to_u16(),
        c.to_u32() == d.to_u32(),
        c.to_u64() == d.to_u64(),
        c.to_u128() == d.to_u128(),
        c.to_i8() == d.to_i8(),
        c.to_i16() == d.to_i16(),
        c.to_i32() == d.to_i32(),
        c.to_i64() == d.to_i64(),
        c.to_i128() == d.to_i128(),
{
}

/// An integer turned into a binary32 number by `try_as_f32` converts to
/// every integer type exactly as the integer does.
pub proof fn lemma_f32_conversion_exact(c: CellValue, x: u32)
    requires
        c.f32_source() is Some,
        f32_integral(x) == c.f32_source(),
    ensures
        CellValue::Float32(x).to_u8() == c.to_u8(),
        CellValue::Float32(x).to_u16() == c.to_u16(),
        CellValue::Float32(x).to_u32() == c.to_u32(),
        CellValue::Float32(x).to_u64() == c.to_u64(),
        CellValue::Float32(x).to_u128() == c.to_u128(),
        CellValue::Float32(x).to_i8() == c.to_i8(),
        CellValue::Float32(x).to_i16() == c.to_i16(),
        CellValue::Float32(x).to_i32() == c.to_i32(),
        CellValue::Float32(x).to_i64() == c.to_i64(),
        CellValue::Float32(x).to_i128() == c.to_i128(),
{
}

/// An integer turned into a binary64 number by `try_as_f64` converts to
/// every integer type exactly as the integer does.
pub proof fn lemma_f64_conversion_exact(c: CellValue, x: u64)
    requires
        c.f64_source() is Some,
        f64_integral(x) == c.f64_source(),
    ensures
        CellValue::Float64(x).to_u8() == c.to_u8(),
        CellValue::Float64(x).to_u16() == c.to_u16(),
        CellValue::Float64(x).to_u32() == c.to_u32(),
        CellValue::Float64(x).to_u64() == c.to_u64(),
        CellValue::Float64(x).to_u128() == c.to_u128(),
        CellValue::Float64(x).to_i8() == c.to_i8(),
        CellValue::Float64(x).to_i16() == c.to_i16(),
        CellValue::Float64(x).to_i32() == c.to_i32(),
        CellValue::Float64(x).to_i64() == c.to_i64(),
        CellValue::Float64(x).to_i128() == c.to_i128(),
{
}

/// Text and bytes convert into each other without loss: the bytes of a
/// text read back as that text, and valid UTF-8 bytes read as text encode
/// back to those bytes.
pub proof fn lemma_text_bytes_round_trip(c: CellValue)
    ensures
        c is Text ==> CellValue::Bytes(c.bytes_of().unwrap()).text_of() == c.text_of(),
        c is Bytes && c.text_of() is Some ==> CellValue::Text(c.text_of().unwrap()).bytes_of()
            == c.bytes_of(),
{
    match c {
        CellValue::Text(t) => {
            encode_utf8_valid_utf8(t);
            encode_utf8_decode_utf8(t);
        },
        CellValue::Bytes(b) => {
            if valid_utf8(b) {
                decode_utf8_encode_utf8(b);
            }
        },
        _ => {},
    }
}

/// `==` on cells is symmetric.
pub proof fn lemma_equals_symmetric(c: CellValue, d: CellValue)
    ensures
        c.equals(d) == d.equals(c),
{
    match (c, d) {
        (CellValue::Float32(a), CellValue::Float32(b)) => {
            lemma_dyadic_same_symmetric(
                f32_significand(a),
                f32_exponent(a),
                f32_significand(b),
                f32_exponent(b),
            );
            assert(f32_equal(a, b) == f32_equal(b, a));
        },
        (CellValue::Float64(a), CellValue::Float64(b)) => {
            lemma_dyadic_same_symmetric(
                f64_significand(a),
                f64_exponent(a),
                f64_significand(b),
                f64_exponent(b),
            );
            assert(f64_equal(a, b) == f64_equal(b, a));
        },
        _ => {},
    }
}

/// Every cell equals itself, except one that holds a NaN.
pub proof fn lemma_equals_reflexive(c: CellValue)
    ensures
        c.equals(c) == !c.holds_nan(),
{
    match c {
        CellValue::Float32(a) => {
            lemma_dyadic_same_refl(f32_significand(a), f32_exponent(a));
        },
        CellValue::Float64(a) => {
            lemma_dyadic_same_refl(f64_significand(a), f64_exponent(a));
        },
        _ => {},
    }
}

/// Equal cells convert alike: they denote the same integer, read as the
/// same text and give the same bytes, so every integer, text and bytes
/// conversion returns the same for both.
pub proof fn lemma_equal_cells_convert_alike(c: CellValue, d: CellValue)
    requires
        c.equals(d),
    ensures
        c.integral() == d.integral(),
        c.text_of() == d.text_of(),
        c.bytes_of() == d.bytes_of(),
        c.to_u8() == d.to_u8(),
        c.to_u16() == d.to_u16(),
        c.to_u32() == d.to_u32(),
        c.to_u64() == d.to_u64(),
        c.to_u128() == d.to_u128(),
        c.to_i8() == d.to_i8(),
        c.to_i16() == d.to_i16(),
        c.to_i32() == d.to_i32(),
        c.to_i64() == d.to_i64(),
        c.to_i128() == d.to_i128(),
{
    match (c, d) {
        (CellValue::Float32(a), CellValue::Float32(b)) => {
            lemma_dyadic_zero(f32_exponent(a));
            lemma_dyadic_zero(f32_exponent(b));
            if dyadic_same(f32_significand(a), f32_exponent(a), f32_significand(b), f32_exponent(b)) {
                lemma_dyadic_same_integer(f32_significand(a), f32_exponent(a), f32_significand(b), f32_exponent(b));
            }
        },
        (CellValue::Float64(a), CellValue::Float64(b)) => {
            lemma_dyadic_zero(f64_exponent(a));
            lemma_dyadic_zero(f64_exponent(b));
            if dyadic_same(f64_significand(a), f64_exponent(a), f64_significand(b), f64_exponent(b)) {
                lemma_dyadic_same_integer(f64_significand(a), f64_exponent(a), f64_significand(b), f64_exponent(b));
            }
        },
        _ => {},
    }
}

/// A cell that converts to binary32 also converts to binary64, and the
/// binary64 number is the widening of the binary32 one.
pub proof fn lemma_f32_conversion_widens(c: CellValue, y: u32, x: u64)
    requires
        c.is_f32_of(y),
        c.is_f64_of(x),
    ensures
        f64_widens(x, y),
{
    if !(c is Float32) {
        lemma_same_integer_widens(x, y, c.f32_source().unwrap());
    }
}

/// Every cell that `try_as_f32` converts, `try_as_f64` converts too.
pub proof fn lemma_f32_convertible_is_f64_convertible(c: CellValue)
    ensures
        c.has_f32() ==> c.has_f64(),
{
}

/// `try_as_f32` converts an integer cell exactly when its integer fits a
/// 16-bit integer of the cell's signedness (`u16` for unsigned cells, `i16`
/// for signed ones), whatever the cell's width, and then gives the binary32
/// number equal to that integer (`+0` for zero). A binary32 cell gives its
/// own pattern; a binary64 cell, an empty cell, text and bytes give nothing.
pub proof fn lemma_f32_conversion_rule(c: CellValue, y: u32)
    ensures
        c is Unsigned8 ==> c.has_f32(),
        c is Unsigned16 ==> c.has_f32(),
        c matches CellValue::Unsigned32(n) ==> (c.has_f32() <==> n <= 0xffff),
        c matches CellValue::Unsigned64(n) ==> (c.has_f32() <==> n <= 0xffff),
        c matches CellValue::Unsigned128(n) ==> (c.has_f32() <==> n <= 0xffff),
        c is Signed8 ==> c.has_f32(),
        c is Signed16 ==> c.has_f32(),
        c matches CellValue::Signed32(n) ==> (c.has_f32() <==> -0x8000 <= n <= 0x7fff),
        c matches CellValue::Signed64(n) ==> (c.has_f32() <==> -0x8000 <= n <= 0x7fff),
        c matches CellValue::Signed128(n) ==> (c.has_f32() <==> -0x8000 <= n <= 0x7fff),
        c is Float32 ==> c.has_f32(),
        c is Float64 || c is Empty || c is Text || c is Bytes ==> !c.has_f32(),
        c matches CellValue::Float32(b) ==> (c.is_f32_of(y) <==> y == b),
        c.is_f32_of(y) && c.integer() is Some ==> f32_integral(y) == c.integer() && (c.integer()
            == Some(0int) ==> y == 0),
{
}

/// `try_as_f32` treats integer cells of the same signedness by value:
/// holding the same integer, they convert alike, whatever their widths.
pub proof fn lemma_f32_conversion_by_value(c: CellValue, d: CellValue, y: u32)
    requires
        c.integer() is Some,
        c.integer() == d.integer(),
        c.is_unsigned() == d.is_unsigned(),
    ensures
        c.has_f32() == d.has_f32(),
        c.is_f32_of(y) == d.is_f32_of(y),
{
}

/// `try_as_f64` converts an `Unsigned32` cell up to `u16::MAX`, a wider
/// unsigned cell up to `u32::MAX`, a narrower one always, and a signed
/// cell exactly when its integer fits `i32`; it then gives the binary64
/// number equal to that integer (`+0` for zero). A binary64 cell gives its
/// own pattern, a binary32 cell its widening; an empty cell, text and bytes
/// give nothing.
pub proof fn lemma_f64_conversion_rule(c: CellValue, x: u64)
    ensures
        c is Unsigned8 ==> c.has_f64(),
        c is Unsigned16 ==> c.has_f64(),
        c matches CellValue::Unsigned32(n) ==> (c.has_f64() <==> n <= 0xffff),
        c matches CellValue::Unsigned64(n) ==> (c.has_f64() <==> n <= 0xffff_ffff),
        c matches CellValue::Unsigned128(n) ==> (c.has_f64() <==> n <= 0xffff_ffff),
        c is Signed8 ==> c.has_f64(),
        c is Signed16 ==> c.has_f64(),
        c is Signed32 ==> c.has_f64(),
        c matches CellValue::Signed64(n) ==> (c.has_f64() <==> -0x8000_0000 <= n <= 0x7fff_ffff),
        c matches CellValue::Signed128(n) ==> (c.has_f64() <==> -0x8000_0000 <= n <= 0x7fff_ffff),
        c is Float32 ==> c.has_f64(),
        c is Float64 ==> c.has_f64(),
        c is Empty || c is Text || c is Bytes ==> !c.has_f64(),
        c matches CellValue::Float64(b) ==> (c.is_f64_of(x) <==> x == b),
        c matches CellValue::Float32(b) ==> (c.is_f64_of(x) <==> f64_widens(x, b)),
        c.is_f64_of(x) && c.integer() is Some ==> f64_integral(x) == c.integer() && (c.integer()
            == Some(0int) ==> x == 0),
{
}

/// `try_as_f64` treats signed integer cells by value: holding the same
/// integer, they convert alike, whatever their widths.
pub proof fn lemma_f64_signed_conversion_by_value(c: CellValue, d: CellValue, x: u64)
    requires
        c.integer() is Some,
        c.integer() == d.integer(),
        !c.is_unsigned(),
        !d.is_unsigned(),
    ensures
        c.has_f64() == d.has_f64(),
        c.is_f64_of(x) == d.is_f64_of(x),
{
}

/// `try_as_text` gives text only for text and bytes: a text cell gives its
/// text, a bytes cell gives text exactly when its bytes are valid UTF-8,
/// and then the text is the one those bytes encode; every other cell gives
/// nothing.
pub proof fn lemma_text_conversion_rule(c: CellValue)
    ensures
        !(c is Text) && !(c is Bytes) ==> c.text_of() is None,
        c matches CellValue::Text(t) ==> c.text_of() == Some(t),
        c matches CellValue::Bytes(b) ==> (c.text_of() is Some <==> valid_utf8(b)),
        c.text_of() matches Some(s) ==> (c matches CellValue::Text(t) && t == s) || (c matches CellValue::Bytes(
            b,
        ) && encode_utf8(s) == b),
{
    if let CellValue::Bytes(b) = c {
        if valid_utf8(b) {
            decode_utf8_encode_utf8(b);
        }
    }
}

/// `try_as_bytes` gives bytes only for bytes and text: a bytes cell gives
/// its bytes, a text cell the valid UTF-8 that encodes its text; every
/// other cell gives nothing.
pub proof fn lemma_bytes_conversion_rule(c: CellValue)
    ensures
        !(c is Text) && !(c is Bytes) ==> c.bytes_of() is None,
        c is Text || c is Bytes ==> c.bytes_of() is Some,
        c.bytes_of() matches Some(b) ==> (c matches CellValue::Bytes(x) && x == b) || (c matches CellValue::Text(
            t,
        ) && valid_utf8(b) && decode_utf8(b) == t),
{
    if let CellValue::Text(t) = c {
        encode_utf8_valid_utf8(t);
        encode_utf8_decode_utf8(t);
    }
}

/// Cells of different variants are never equal, and equal cells hold the
/// same integer, text or bytes.
pub proof fn lemma_equal_cells_same_variant(c: CellValue, d: CellValue)
    requires
        c.equals(d),
    ensures
        (c is Empty) == (d is Empty),
        (c is Text) == (d is Text),
        (c is Bytes) == (d is Bytes),
        (c is Unsigned8) == (d is Unsigned8),
        (c is Unsigned16) == (d is Unsigned16),
        (c is Unsigned32) == (d is Unsigned32),
        (c is Unsigned64) == (d is Unsigned64),
        (c is Unsigned128) == (d is Unsigned128),
        (c is Signed8) == (d is Signed8),
        (c is Signed16) == (d is Signed16),
        (c is Signed32) == (d is Signed32),
        (c is Signed64) == (d is Signed64),
        (c is Signed128) == (d is Signed128),
        (c is Float32) == (d is Float32),
        (c is Float64) == (d is Float64),
        c.integer() == d.integer(),
        c.as_text() == d.as_text(),
        c.as_bytes() == d.as_bytes(),
{
}

/// Cells of one float variant are equal by value: a cell that holds a NaN
/// equals no cell, and one whose number is an integer equals exactly the
/// cells of its variant whose numbers are that same integer (so `+0` and
/// `-0` are equal).
pub proof fn lemma_float_cells_equal_by_value(c: CellValue, d: CellValue)
    requires
        (c is Float32 && d is Float32) || (c is Float64 && d is Float64),
    ensures
        c.holds_nan() || d.holds_nan() ==> !c.equals(d),
        c.integral() is Some ==> (c.equals(d) <==> d.integral() == c.integral()),
{
    match (c, d) {
        (CellValue::Float32(a), CellValue::Float32(b)) => {
            lemma_f32_equal_by_integral(a, b);
        },
        (CellValue::Float64(a), CellValue::Float64(b)) => {
            lemma_f64_equal_by_integral(a, b);
        },
        _ => {},
    }
}

/// The integer conversions (`try_as_u8` ... `try_as_i128`) give the
/// integer a cell denotes exactly when it lies in the target type's range.
/// For a binary32 number the range is further cut to magnitudes up to
/// `2^24 - 1` (targets of 32 bits and wider), for a binary64 number to
/// magnitudes up to `2^53 - 1` (targets of 64 bits and wider). A cell that
/// denotes no integer (text, bytes, the empty cell, a fraction, an infinity
/// or a NaN) converts to nothing.
pub proof fn lemma_integer_conversion_rule(c: CellValue, n: int)
    ensures
        c.integer() == Some(n) ==> (c.to_u8() == Some(n) <==> u8::MIN as int <= n <= u8::MAX as int),
        c.integer() == Some(n) ==> (c.to_u16() == Some(n) <==> u16::MIN as int <= n <= u16::MAX as int),
        c.integer() == Some(n) ==> (c.to_u32() == Some(n) <==> u32::MIN as int <= n <= u32::MAX as int),
        c.integer() == Some(n) ==> (c.to_u64() == Some(n) <==> u64::MIN as int <= n <= u64::MAX as int),
        c.integer() == Some(n) ==> (c.to_u128() == Some(n) <==> u128::MIN as int <= n <= u128::MAX as int),
        c.integer() == Some(n) ==> (c.to_i8() == Some(n) <==> i8::MIN as int <= n <= i8::MAX as int),
        c.integer() == Some(n) ==> (c.to_i16() == Some(n) <==> i16::MIN as int <= n <= i16::MAX as int),
        c.integer() == Some(n) ==> (c.to_i32() == Some(n) <==> i32::MIN as int <= n <= i32::MAX as int),
        c.integer() == Some(n) ==> (c.to_i64() == Some(n) <==> i64::MIN as int <= n <= i64::MAX as int),
        c.integer() == Some(n) ==> (c.to_i128() == Some(n) <==> i128::MIN as int <= n <= i128::MAX as int),
        c is Float32 && c.integral() == Some(n) ==> (c.to_u8() == Some(n) <==> 0 <= n <= u8::MAX as int),
        c is Float32 && c.integral() == Some(n) ==> (c.to_u16() == Some(n) <==> 0 <= n <= u16::MAX as int),
        c is Float32 && c.integral() == Some(n) ==> (c.to_u32() == Some(n) <==> 0 <= n <= 0x00ff_ffff),
        c is Float32 && c.integral() == Some(n) ==> (c.to_u64() == Some(n) <==> 0 <= n <= 0x00ff_ffff),
        c is Float32 && c.integral() == Some(n) ==> (c.to_u128() == Some(n) <==> 0 <= n <= 0x00ff_ffff),
        c is Float32 && c.integral() == Some(n) ==> (c.to_i8() == Some(n) <==> i8::MIN as int <= n <= i8::MAX as int),
        c is Float32 && c.integral() == Some(n) ==> (c.to_i16() == Some(n) <==> i16::MIN as int <= n <= i16::MAX as int),
        c is Float32 && c.integral() == Some(n) ==> (c.to_i32() == Some(n) <==> -0x00ff_ffff <= n <= 0x00ff_ffff),
        c is Float32 && c.integral() == Some(n) ==> (c.to_i64() == Some(n) <==> -0x00ff_ffff <= n <= 0x00ff_ffff),
        c is Float32 && c.integral() == Some(n) ==> (c.to_i128() == Some(n) <==> -0x00ff_ffff <= n <= 0x00ff_ffff),
        c is Float64 && c.integral() == Some(n) ==> (c.to_u8() == Some(n) <==> 0 <= n <= u8::MAX as int),
        c is Float64 && c.integral() == Some(n) ==> (c.to_u16() == Some(n) <==> 0 <= n <= u16::MAX as int),
        c is Float64 && c.integral() == Some(n) ==> (c.to_u32() == Some(n) <==> 0 <= n <= u32::MAX as int),
        c is Float64 && c.integral() == Some(n) ==> (c.to_u64() == Some(n) <==> 0 <= n <= 0x001f_ffff_ffff_ffff),
        c is Float64 && c.integral() == Some(n) ==> (c.to_u128() == Some(n) <==> 0 <= n <= 0x001f_ffff_ffff_ffff),
        c is Float64 && c.integral() == Some(n) ==> (c.to_i8() == Some(n) <==> i8::MIN as int <= n <= i8::MAX as int),
        c is Float64 && c.integral() == Some(n) ==> (c.to_i16() == Some(n) <==> i16::MIN as int <= n <= i16::MAX as int),
        c is Float64 && c.integral() == Some(n) ==> (c.to_i32() == Some(n) <==> i32::MIN as int <= n <= i32::MAX as int),
        c is Float64 && c.integral() == Some(n) ==> (c.to_i64() == Some(n) <==> -0x001f_ffff_ffff_ffff <= n <= 0x001f_ffff_ffff_ffff),
        c is Float64 && c.integral() == Some(n) ==> (c.to_i128() == Some(n) <==> -0x001f_ffff_ffff_ffff <= n <= 0x001f_ffff_ffff_ffff),
        c.integral() is None ==> c.to_u8() is None,
        c.integral() is None ==> c.to_u16() is None,
        c.integral() is None ==> c.to_u32() is None,
        c.integral() is None ==> c.to_u64() is None,
        c.integral() is None ==> c.to_u128() is None,
        c.integral() is None ==> c.to_i8() is None,
        c.integral() is None ==> c.to_i16() is None,
        c.integral() is None ==> c.to_i32() is None,
        c.integral() is None ==> c.to_i64() is None,
        c.integral() is None ==> c.to_i128() is None,
{
}

/// Only text and bytes can be borrowed: a cell of any other kind always
/// stands on its own, a text or bytes cell borrows exactly when it holds a
/// borrowed `Cow`, and what it holds reads the same either way.
pub proof fn lemma_only_text_and_bytes_borrow<'d>(c: DataCell<'d>)
    ensures
        !(c@ is Text) && !(c@ is Bytes) ==> c.is_owned(),
        c matches DataCell::Text(Cow::Borrowed(_)) ==> !c.is_owned(),
        c matches DataCell::Bytes(Cow::Borrowed(_)) ==> !c.is_owned(),
        c matches DataCell::Text(Cow::Owned(_)) ==> c.is_owned(),
        c matches DataCell::Bytes(Cow::Owned(_)) ==> c.is_owned(),
{
}

} // verus!
