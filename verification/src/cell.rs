//! [`DataCell`], a flexible fundamental unit of data, and its conversions.
use std::borrow::Cow;
use vstd::prelude::*;
use vstd::slice::slice_to_vec;
use vstd::utf8::*;

use crate::binary::{
    f32_from_integer, f32_integral, f32_integral_in, f32_is_nan, f64_from_f32, f64_from_integer,
    f64_integral, f64_integral_in, f64_is_nan, f64_widens, opt_i128, within,
};

verus! {

/// `2^24 - 1`: every integer up to it in magnitude is exactly a binary32
/// number. Conversions of binary32 numbers to wide integers stop there.
pub const F32_MAX_EXACT_INTEGER: i128 = 16_777_215;

/// Negation of [`F32_MAX_EXACT_INTEGER`].
pub const F32_MIN_EXACT_INTEGER: i128 = -16_777_215;

/// `2^53 - 1`: every integer up to it in magnitude is exactly a binary64
/// number. Conversions of binary64 numbers to wide integers stop there.
pub const F64_MAX_EXACT_INTEGER: i128 = 9_007_199_254_740_991;

/// Negation of [`F64_MAX_EXACT_INTEGER`].
pub const F64_MIN_EXACT_INTEGER: i128 = -9_007_199_254_740_991;

/// A flexible, fundamental unit of data.
///
/// The variants keep their order: serialization formats that number enum
/// variants rely on it. New variants only ever go at the end.
///
/// `Float32` and `Float64` carry the IEEE 754 bit pattern of the number
/// (what `f32::to_bits` and `f64::to_bits` give); `Debug` shows that
/// pattern.
#[derive(Debug)]
#[non_exhaustive]
pub enum DataCell<'d> {
    /// Empty cell.
    Empty,
    /// UTF-8 text.
    Text(Cow<'d, str>),
    /// Raw binary blob suitable for serializing custom data.
    Bytes(Cow<'d, [u8]>),
    Unsigned8(u8),
    Unsigned16(u16),
    Unsigned32(u32),
    Unsigned64(u64),
    Unsigned128(u128),
    Signed8(i8),
    Signed16(i16),
    Signed32(i32),
    Signed64(i64),
    Signed128(i128),
    /// Bit pattern of an IEEE 754 binary32 number.
    Float32(u32),
    /// Bit pattern of an IEEE 754 binary64 number.
    Float64(u64),
}

/// What a [`DataCell`] holds, whether its text and bytes are borrowed or
/// owned.
pub enum CellValue {
    Empty,
    Text(Seq<char>),
    Bytes(Seq<u8>),
    Unsigned8(u8),
    Unsigned16(u16),
    Unsigned32(u32),
    Unsigned64(u64),
    Unsigned128(u128),
    Signed8(i8),
    Signed16(i16),
    Signed32(i32),
    Signed64(i64),
    Signed128(i128),
    Float32(u32),
    Float64(u64),
}

impl<'d> View for DataCell<'d> {
    type V = CellValue;

    open spec fn view(&self) -> CellValue {
        match self {
            DataCell::Empty => CellValue::Empty,
            DataCell::Text(t) => CellValue::Text(t@),
            DataCell::Bytes(b) => CellValue::Bytes(b@),
            DataCell::Unsigned8(n) => CellValue::Unsigned8(*n),
            DataCell::Unsigned16(n) => CellValue::Unsigned16(*n),
            DataCell::Unsigned32(n) => CellValue::Unsigned32(*n),
            DataCell::Unsigned64(n) => CellValue::Unsigned64(*n),
            DataCell::Unsigned128(n) => CellValue::Unsigned128(*n),
            DataCell::Signed8(n) => CellValue::Signed8(*n),
            DataCell::Signed16(n) => CellValue::Signed16(*n),
            DataCell::Signed32(n) => CellValue::Signed32(*n),
            DataCell::Signed64(n) => CellValue::Signed64(*n),
            DataCell::Signed128(n) => CellValue::Signed128(*n),
            DataCell::Float32(b) => CellValue::Float32(*b),
            DataCell::Float64(b) => CellValue::Float64(*b),
        }
    }
}

impl CellValue {
    /// The integer held by an integer variant.
    pub open spec fn integer(self) -> Option<int> {
        match self {
            CellValue::Unsigned8(n) => Some(n as int),
            CellValue::Unsigned16(n) => Some(n as int),
            CellValue::Unsigned32(n) => Some(n as int),
            CellValue::Unsigned64(n) => Some(n as int),
            CellValue::Unsigned128(n) => Some(n as int),
            CellValue::Signed8(n) => Some(n as int),
            CellValue::Signed16(n) => Some(n as int),
            CellValue::Signed32(n) => Some(n as int),
            CellValue::Signed64(n) => Some(n as int),
            CellValue::Signed128(n) => Some(n as int),
            _ => None,
        }
    }

    /// The number held by a `Unsigned8` cell.
    pub open spec fn as_u8(self) -> Option<u8> {
        match self {
            CellValue::Unsigned8(n) => Some(n),
            _ => None,
        }
    }

    /// The number held by a `Unsigned16` cell.
    pub open spec fn as_u16(self) -> Option<u16> {
        match self {
            CellValue::Unsigned16(n) => Some(n),
            _ => None,
        }
    }

    /// The number held by a `Unsigned32` cell.
    pub open spec fn as_u32(self) -> Option<u32> {
        match self {
            CellValue::Unsigned32(n) => Some(n),
            _ => None,
        }
    }

    /// The number held by a `Unsigned64` cell.
    pub open spec fn as_u64(self) -> Option<u64> {
        match self {
            CellValue::Unsigned64(n) => Some(n),
            _ => None,
        }
    }

    /// The number held by a `Unsigned128` cell.
    pub open spec fn as_u128(self) -> Option<u128> {
        match self {
            CellValue::Unsigned128(n) => Some(n),
            _ => None,
        }
    }

    /// The number held by a `Signed8` cell.
    pub open spec fn as_i8(self) -> Option<i8> {
        match self {
            CellValue::Signed8(n) => Some(n),
            _ => None,
        }
    }

    /// The number held by a `Signed16` cell.
    pub open spec fn as_i16(self) -> Option<i16> {
        match self {
            CellValue::Signed16(n) => Some(n),
            _ => None,
        }
    }

    /// The number held by a `Signed32` cell.
    pub open spec fn as_i32(self) -> Option<i32> {
        match self {
            CellValue::Signed32(n) => Some(n),
            _ => None,
        }
    }

    /// The number held by a `Signed64` cell.
    pub open spec fn as_i64(self) -> Option<i64> {
        match self {
            CellValue::Signed64(n) => Some(n),
            _ => None,
        }
    }

    /// The number held by a `Signed128` cell.
    pub open spec fn as_i128(self) -> Option<i128> {
        match self {
            CellValue::Signed128(n) => Some(n),
            _ => None,
        }
    }

    /// The bit pattern held by a `Float32` cell.
    pub open spec fn as_f32(self) -> Option<u32> {
        match self {
            CellValue::Float32(n) => Some(n),
            _ => None,
        }
    }

    /// The bit pattern held by a `Float64` cell.
    pub open spec fn as_f64(self) -> Option<u64> {
        match self {
            CellValue::Float64(n) => Some(n),
            _ => None,
        }
    }

    /// The text held by a `Text` cell.
    pub open spec fn as_text(self) -> Option<Seq<char>> {
        match self {
            CellValue::Text(t) => Some(t),
            _ => None,
        }
    }

    /// The bytes held by a `Bytes` cell.
    pub open spec fn as_bytes(self) -> Option<Seq<u8>> {
        match self {
            CellValue::Bytes(b) => Some(b),
            _ => None,
        }
    }

    /// What `try_as_text` gives: the text, or bytes read as UTF-8 when
    /// they are valid UTF-8.
    pub open spec fn text_of(self) -> Option<Seq<char>> {
        match self {
            CellValue::Text(t) => Some(t),
            CellValue::Bytes(b) => if valid_utf8(b) {
                Some(decode_utf8(b))
            } else {
                None
            },
            _ => None,
        }
    }

    /// What `try_as_bytes` gives: the bytes, or the UTF-8 encoding of the
    /// text.
    pub open spec fn bytes_of(self) -> Option<Seq<u8>> {
        match self {
            CellValue::Bytes(b) => Some(b),
            CellValue::Text(t) => Some(encode_utf8(t)),
            _ => None,
        }
    }

    /// The integer the cell holds, or that its floating-point number
    /// denotes.
    pub open spec fn integral(self) -> Option<int> {
        match self {
            CellValue::Float32(b) => f32_integral(b),
            CellValue::Float64(b) => f64_integral(b),
            _ => self.integer(),
        }
    }

    /// The cell holds a floating-point NaN.
    pub open spec fn holds_nan(self) -> bool {
        match self {
            CellValue::Float32(b) => f32_is_nan(b),
            CellValue::Float64(b) => f64_is_nan(b),
            _ => false,
        }
    }

    /// The variant holds an unsigned integer.
    pub open spec fn is_unsigned(self) -> bool {
        ||| self is Unsigned8
        ||| self is Unsigned16
        ||| self is Unsigned32
        ||| self is Unsigned64
        ||| self is Unsigned128
    }

    /// The integer that the cell holds or denotes, when it lies in a range:
    /// `[lo, hi]` for integer variants, `[f32_lo, f32_hi]` for a binary32
    /// number and `[f64_lo, f64_hi]` for a binary64 number (which must
    /// denote an integer).
    pub open spec fn integral_within(
        self,
        lo: int,
        hi: int,
        f32_lo: int,
        f32_hi: int,
        f64_lo: int,
        f64_hi: int,
    ) -> Option<int> {
        match self {
            CellValue::Float32(b) => within(f32_integral(b), f32_lo, f32_hi),
            CellValue::Float64(b) => within(f64_integral(b), f64_lo, f64_hi),
            _ => within(self.integer(), lo, hi),
        }
    }

    /// What `try_as_u8` converts the cell to.
    pub open spec fn to_u8(self) -> Option<int> {
        self.integral_within(0, 0xff, 0, 0xff, 0, 0xff)
    }

    /// What `try_as_u16` converts the cell to.
    pub open spec fn to_u16(self) -> Option<int> {
        self.integral_within(0, 0xffff, 0, 0xffff, 0, 0xffff)
    }

    /// What `try_as_u32` converts the cell to.
    pub open spec fn to_u32(self) -> Option<int> {
        self.integral_within(0, 0xffff_ffff, 0, F32_MAX_EXACT_INTEGER as int, 0, 0xffff_ffff)
    }

    /// What `try_as_u64` converts the cell to.
    pub open spec fn to_u64(self) -> Option<int> {
        self.integral_within(
            0,
            0xffff_ffff_ffff_ffff,
            0,
            F32_MAX_EXACT_INTEGER as int,
            0,
            F64_MAX_EXACT_INTEGER as int,
        )
    }

    /// What `try_as_u128` converts the cell to.
    pub open spec fn to_u128(self) -> Option<int> {
        self.integral_within(
            0,
            u128::MAX as int,
            0,
            F32_MAX_EXACT_INTEGER as int,
            0,
            F64_MAX_EXACT_INTEGER as int,
        )
    }

    /// What `try_as_i8` converts the cell to.
    pub open spec fn to_i8(self) -> Option<int> {
        self.integral_within(-0x80, 0x7f, -0x80, 0x7f, -0x80, 0x7f)
    }

    /// What `try_as_i16` converts the cell to.
    pub open spec fn to_i16(self) -> Option<int> {
        self.integral_within(-0x8000, 0x7fff, -0x8000, 0x7fff, -0x8000, 0x7fff)
    }

    /// What `try_as_i32` converts the cell to.
    pub open spec fn to_i32(self) -> Option<int> {
        self.integral_within(
            i32::MIN as int,
            i32::MAX as int,
            F32_MIN_EXACT_INTEGER as int,
            F32_MAX_EXACT_INTEGER as int,
            i32::MIN as int,
            i32::MAX as int,
        )
    }

    /// What `try_as_i64` converts the cell to.
    pub open spec fn to_i64(self) -> Option<int> {
        self.integral_within(
            i64::MIN as int,
            i64::MAX as int,
            F32_MIN_EXACT_INTEGER as int,
            F32_MAX_EXACT_INTEGER as int,
            F64_MIN_EXACT_INTEGER as int,
            F64_MAX_EXACT_INTEGER as int,
        )
    }

    /// What `try_as_i128` converts the cell to.
    pub open spec fn to_i128(self) -> Option<int> {
        self.integral_within(
            i128::MIN as int,
            i128::MAX as int,
            F32_MIN_EXACT_INTEGER as int,
            F32_MAX_EXACT_INTEGER as int,
            F64_MIN_EXACT_INTEGER as int,
            F64_MAX_EXACT_INTEGER as int,
        )
    }

    /// The integer that `try_as_f32` turns into a binary32 number: an
    /// unsigned one up to `u16::MAX`, a signed one within `i16`.
    pub open spec fn f32_source(self) -> Option<int> {
        if self.is_unsigned() {
            within(self.integer(), 0, 0xffff)
        } else {
            within(self.integer(), -0x8000, 0x7fff)
        }
    }

    /// The integer that `try_as_f64` turns into a binary64 number: an
    /// `Unsigned32` one up to `u16::MAX`, another unsigned one up to
    /// `u32::MAX`, a signed one within `i32`.
    pub open spec fn f64_source(self) -> Option<int> {
        if self is Unsigned32 {
            within(self.integer(), 0, 0xffff)
        } else if self.is_unsigned() {
            within(self.integer(), 0, 0xffff_ffff)
        } else {
            within(self.integer(), i32::MIN as int, i32::MAX as int)
        }
    }

    /// `try_as_f32` returns a bit pattern for this cell.
    pub open spec fn has_f32(self) -> bool {
        self is Float32 || self.f32_source() is Some
    }

    /// `y` is the bit pattern that `try_as_f32` returns for this cell: the
    /// cell's own binary32 number, or the binary32 number equal to its
    /// integer (`+0` for zero).
    pub open spec fn is_f32_of(self, y: u32) -> bool {
        match self {
            CellValue::Float32(b) => y == b,
            _ => match self.f32_source() {
                Some(n) => f32_integral(y) == Some(n) && (n == 0 ==> y == 0),
                None => false,
            },
        }
    }

    /// `try_as_f64` returns a bit pattern for this cell.
    pub open spec fn has_f64(self) -> bool {
        self is Float64 || self is Float32 || self.f64_source() is Some
    }

    /// `x` is the bit pattern that `try_as_f64` returns for this cell: the
    /// cell's own binary64 number, the widening of its binary32 number, or
    /// the binary64 number equal to its integer (`+0` for zero).
    pub open spec fn is_f64_of(self, x: u64) -> bool {
        match self {
            CellValue::Float64(b) => x == b,
            CellValue::Float32(b) => f64_widens(x, b),
            _ => match self.f64_source() {
                Some(n) => f64_integral(x) == Some(n) && (n == 0 ==> x == 0),
                None => false,
            },
        }
    }
}

impl<'d> DataCell<'d> {
    /// No text or bytes of the cell are borrowed.
    pub open spec fn is_owned(&self) -> bool {
        match self {
            DataCell::Text(Cow::Borrowed(_)) => false,
            DataCell::Bytes(Cow::Borrowed(_)) => false,
            _ => true,
        }
    }

    /// Create the [Empty](DataCell::Empty) variant.
    pub fn empty() -> (r: Self)
        ensures
            r@ == CellValue::Empty,
    {
        DataCell::Empty
    }

    /// Clones borrowed data and returns a static (unused) lifetime.
    ///
    /// This is different from [DataCell]'s implementation of [Clone],
    /// which copies the underlying shared reference/lifetime.
    pub fn cloned(&self) -> (r: DataCell<'static>)
        ensures
            r@ == self@,
            r.is_owned(),
    {
        match self {
            DataCell::Empty => DataCell::Empty,
            DataCell::Text(text) => DataCell::Text(Cow::Owned(cow_str(text).to_owned())),
            DataCell::Bytes(bytes) => DataCell::Bytes(Cow::Owned(slice_to_vec(cow_bytes(bytes)))),
            DataCell::Unsigned8(num) => DataCell::u8(*num),
            DataCell::Unsigned16(num) => DataCell::u16(*num),
            DataCell::Unsigned32(num) => DataCell::u32(*num),
            DataCell::Unsigned64(num) => DataCell::u64(*num),
            DataCell::Unsigned128(num) => DataCell::u128(*num),
            DataCell::Signed8(num) => DataCell::i8(*num),
            DataCell::Signed16(num) => DataCell::i16(*num),
            DataCell::Signed32(num) => DataCell::i32(*num),
            DataCell::Signed64(num) => DataCell::i64(*num),
            DataCell::Signed128(num) => DataCell::i128(*num),
            DataCell::Float32(num) => DataCell::f32_bits(*num),
            DataCell::Float64(num) => DataCell::f64_bits(*num),
        }
    }

    /// The cell borrows its text or bytes, so whatever it borrows from
    /// must outlive it; every other cell can stand on its own.
    pub fn borrows_data(&self) -> (r: bool)
        ensures
            r == !self.is_owned(),
    {
        match self {
            DataCell::Text(Cow::Borrowed(_)) => true,
            DataCell::Bytes(Cow::Borrowed(_)) => true,
            _ => false,
        }
    }

    /// Create the [Text](DataCell::Text) variant.
    pub fn text<T: Into<Cow<'d, str>>>(value: T) -> (r: Self)
        ensures
            r matches DataCell::Text(c) && call_ensures(T::into, (value,), c),
    {
        DataCell::Text(value.into())
    }

    /// Returns [Some] if this is a [Text](DataCell::Text) variant.
    pub fn as_text(&self) -> (r: Option<&str>)
        ensures
            match r {
                Some(s) => self@.as_text() == Some(s@),
                None => self@.as_text() is None,
            },
    {
        if let DataCell::Text(text) = self {
            Some(cow_str(text))
        } else {
            None
        }
    }

    /// Returns [Some] if this is a [Text](DataCell::Text) variant
    /// or a [Bytes](DataCell::Bytes) variant that can be represented
    /// as text (that is, valid UTF-8).
    pub fn try_as_text(&self) -> (r: Option<&str>)
        ensures
            match r {
                Some(s) => self@.text_of() == Some(s@),
                None => self@.text_of() is None,
            },
    {
        match self {
            DataCell::Text(text) => Some(cow_str(text)),
            DataCell::Bytes(bytes) => {
                let r = str_from_utf8(cow_bytes(bytes));
                proof {
                    if let Some(s) = r {
                        encode_utf8_decode_utf8(s@);
                    }
                }
                r
            },
            _ => None,
        }
    }

    /// Create the [Bytes](DataCell::Bytes) variant.
    pub fn bytes<T: Into<Cow<'d, [u8]>>>(value: T) -> (r: Self)
        ensures
            r matches DataCell::Bytes(c) && call_ensures(T::into, (value,), c),
    {
        DataCell::Bytes(value.into())
    }

    /// Returns [Some] if this is a [Bytes](DataCell::Bytes) variant.
    pub fn as_bytes(&self) -> (r: Option<&[u8]>)
        ensures
            match r {
                Some(s) => self@.as_bytes() == Some(s@),
                None => self@.as_bytes() is None,
            },
    {
        if let DataCell::Bytes(bytes) = self {
            Some(cow_bytes(bytes))
        } else {
            None
        }
    }

    /// Returns [Some] if this is a [Bytes](DataCell::Bytes) variant
    /// or a [Text](DataCell::Text) variant, which is given as its UTF-8
    /// encoding.
    pub fn try_as_bytes(&self) -> (r: Option<&[u8]>)
        ensures
            match r {
                Some(s) => self@.bytes_of() == Some(s@),
                None => self@.bytes_of() is None,
            },
    {
        match self {
            DataCell::Bytes(bytes) => Some(cow_bytes(bytes)),
            DataCell::Text(text) => Some(cow_str(text).as_bytes()),
            _ => None,
        }
    }

    /// Create the [Unsigned8](DataCell::Unsigned8) variant.
    pub fn u8(value: u8) -> (r: Self)
        ensures
            r@ == CellValue::Unsigned8(value),
    {
        DataCell::Unsigned8(value)
    }

    /// Returns [Some] if this is an [Unsigned8](DataCell::Unsigned8) variant.
    pub fn as_u8(&self) -> (r: Option<u8>)
        ensures
            r == self@.as_u8(),
    {
        if let DataCell::Unsigned8(num) = self {
            Some(*num)
        } else {
            None
        }
    }

    /// Create the [Unsigned16](DataCell::Unsigned16) variant.
    pub fn u16(value: u16) -> (r: Self)
        ensures
            r@ == CellValue::Unsigned16(value),
    {
        DataCell::Unsigned16(value)
    }

    /// Returns [Some] if this is an [Unsigned16](DataCell::Unsigned16) variant.
    pub fn as_u16(&self) -> (r: Option<u16>)
        ensures
            r == self@.as_u16(),
    {
        if let DataCell::Unsigned16(num) = self {
            Some(*num)
        } else {
            None
        }
    }

    /// Create the [Unsigned32](DataCell::Unsigned32) variant.
    pub fn u32(value: u32) -> (r: Self)
        ensures
            r@ == CellValue::Unsigned32(value),
    {
        DataCell::Unsigned32(value)
    }

    /// Returns [Some] if this is an [Unsigned32](DataCell::Unsigned32) variant.
    pub fn as_u32(&self) -> (r: Option<u32>)
        ensures
            r == self@.as_u32(),
    {
        if let DataCell::Unsigned32(num) = self {
            Some(*num)
        } else {
            None
        }
    }

    /// Create the [Unsigned64](DataCell::Unsigned64) variant.
    pub fn u64(value: u64) -> (r: Self)
        ensures
            r@ == CellValue::Unsigned64(value),
    {
        DataCell::Unsigned64(value)
    }

    /// Returns [Some] if this is an [Unsigned64](DataCell::Unsigned64) variant.
    pub fn as_u64(&self) -> (r: Option<u64>)
        ensures
            r == self@.as_u64(),
    {
        if let DataCell::Unsigned64(num) = self {
            Some(*num)
        } else {
            None
        }
    }

    /// Create the [Unsigned128](DataCell::Unsigned128) variant.
    pub fn u128(value: u128) -> (r: Self)
        ensures
            r@ == CellValue::Unsigned128(value),
    {
        DataCell::Unsigned128(value)
    }

    /// Returns [Some] if this is an [Unsigned128](DataCell::Unsigned128) variant.
    pub fn as_u128(&self) -> (r: Option<u128>)
        ensures
            r == self@.as_u128(),
    {
        if let DataCell::Unsigned128(num) = self {
            Some(*num)
        } else {
            None
        }
    }

    /// Create the [Signed8](DataCell::Signed8) variant.
    pub fn i8(value: i8) -> (r: Self)
        ensures
            r@ == CellValue::Signed8(value),
    {
        DataCell::Signed8(value)
    }

    /// Returns [Some] if this is a [Signed8](DataCell::Signed8) variant.
    pub fn as_i8(&self) -> (r: Option<i8>)
        ensures
            r == self@.as_i8(),
    {
        if let DataCell::Signed8(num) = self {
            Some(*num)
        } else {
            None
        }
    }

    /// Create the [Signed16](DataCell::Signed16) variant.
    pub fn i16(value: i16) -> (r: Self)
        ensures
            r@ == CellValue::Signed16(value),
    {
        DataCell::Signed16(value)
    }

    /// Returns [Some] if this is a [Signed16](DataCell::Signed16) variant.
    pub fn as_i16(&self) -> (r: Option<i16>)
        ensures
            r == self@.as_i16(),
    {
        if let DataCell::Signed16(num) = self {
            Some(*num)
        } else {
            None
        }
    }

    /// Create the [Signed32](DataCell::Signed32) variant.
    pub fn i32(value: i32) -> (r: Self)
        ensures
            r@ == CellValue::Signed32(value),
    {
        DataCell::Signed32(value)
    }

    /// Returns [Some] if this is a [Signed32](DataCell::Signed32) variant.
    pub fn as_i32(&self) -> (r: Option<i32>)
        ensures
            r == self@.as_i32(),
    {
        if let DataCell::Signed32(num) = self {
            Some(*num)
        } else {
            None
        }
    }

    /// Create the [Signed64](DataCell::Signed64) variant.
    pub fn i64(value: i64) -> (r: Self)
        ensures
            r@ == CellValue::Signed64(value),
    {
        DataCell::Signed64(value)
    }

    /// Returns [Some] if this is a [Signed64](DataCell::Signed64) variant.
    pub fn as_i64(&self) -> (r: Option<i64>)
        ensures
            r == self@.as_i64(),
    {
        if let DataCell::Signed64(num) = self {
            Some(*num)
        } else {
            None
        }
    }

    /// Create the [Signed128](DataCell::Signed128) variant.
    pub fn i128(value: i128) -> (r: Self)
        ensures
            r@ == CellValue::Signed128(value),
    {
        DataCell::Signed128(value)
    }

    /// Returns [Some] if this is a [Signed128](DataCell::Signed128) variant.
    pub fn as_i128(&self) -> (r: Option<i128>)
        ensures
            r == self@.as_i128(),
    {
        if let DataCell::Signed128(num) = self {
            Some(*num)
        } else {
            None
        }
    }

    /// Returns [Some] if this is an [Unsigned8](DataCell::Unsigned8) variant or if this is another
    /// number that can be losslessly represented as a [u8].
    pub fn try_as_u8(&self) -> (r: Option<u8>)
        ensures
            match r {
                Some(x) => self@.to_u8() == Some(x as int),
                None => self@.to_u8() is None,
            },
    {
        match self.integral_within(0, 0xff, 0, 0xff, 0, 0xff) {
            Some(v) => Some(v as u8),
            None => None,
        }
    }

    /// Returns [Some] if this is an [Unsigned16](DataCell::Unsigned16) variant or if this is another
    /// number that can be losslessly represented as a [u16].
    pub fn try_as_u16(&self) -> (r: Option<u16>)
        ensures
            match r {
                Some(x) => self@.to_u16() == Some(x as int),
                None => self@.to_u16() is None,
            },
    {
        match self.integral_within(0, 0xffff, 0, 0xffff, 0, 0xffff) {
            Some(v) => Some(v as u16),
            None => None,
        }
    }

    /// Returns [Some] if this is an [Unsigned32](DataCell::Unsigned32) variant or if this is another
    /// number that can be losslessly represented as a [u32].
    ///
    /// **Note:** Floats are only returned when in the range where there aren't
    /// any gaps in the integers that can be represented as a float.
    pub fn try_as_u32(&self) -> (r: Option<u32>)
        ensures
            match r {
                Some(x) => self@.to_u32() == Some(x as int),
                None => self@.to_u32() is None,
            },
    {
        match self.integral_within(0, 0xffff_ffff, 0, F32_MAX_EXACT_INTEGER, 0, 0xffff_ffff) {
            Some(v) => Some(v as u32),
            None => None,
        }
    }

    /// Returns [Some] if this is an [Unsigned64](DataCell::Unsigned64) variant or if this is another
    /// number that can be losslessly represented as a [u64].
    ///
    /// **Note:** Floats are only returned when in the range where there aren't
    /// any gaps in the integers that can be represented as a float.
    pub fn try_as_u64(&self) -> (r: Option<u64>)
        ensures
            match r {
                Some(x) => self@.to_u64() == Some(x as int),
                None => self@.to_u64() is None,
            },
    {
        match self.integral_within(0, 0xffff_ffff_ffff_ffff, 0, F32_MAX_EXACT_INTEGER, 0, F64_MAX_EXACT_INTEGER) {
            Some(v) => Some(v as u64),
            None => None,
        }
    }

    /// Returns [Some] if this is an [Signed8](DataCell::Signed8) variant or if this is another
    /// number that can be losslessly represented as a [i8].
    pub fn try_as_i8(&self) -> (r: Option<i8>)
        ensures
            match r {
                Some(x) => self@.to_i8() == Some(x as int),
                None => self@.to_i8() is None,
            },
    {
        match self.integral_within(-0x80, 0x7f, -0x80, 0x7f, -0x80, 0x7f) {
            Some(v) => Some(v as i8),
            None => None,
        }
    }

    /// Returns [Some] if this is an [Signed16](DataCell::Signed16) variant or if this is another
    /// number that can be losslessly represented as a [i16].
    pub fn try_as_i16(&self) -> (r: Option<i16>)
        ensures
            match r {
                Some(x) => self@.to_i16() == Some(x as int),
                None => self@.to_i16() is None,
            },
    {
        match self.integral_within(-0x8000, 0x7fff, -0x8000, 0x7fff, -0x8000, 0x7fff) {
            Some(v) => Some(v as i16),
            None => None,
        }
    }

    /// Returns [Some] if this is an [Signed32](DataCell::Signed32) variant or if this is another
    /// number that can be losslessly represented as a [i32].
    ///
    /// **Note:** Floats are only returned when in the range where there aren't
    /// any gaps in the integers that can be represented as a float.
    pub fn try_as_i32(&self) -> (r: Option<i32>)
        ensures
            match r {
                Some(x) => self@.to_i32() == Some(x as int),
                None => self@.to_i32() is None,
            },
    {
        match self.integral_within(-0x8000_0000, 0x7fff_ffff, F32_MIN_EXACT_INTEGER, F32_MAX_EXACT_INTEGER, -0x8000_0000, 0x7fff_ffff) {
            Some(v) => Some(v as i32),
            None => None,
        }
    }

    /// Returns [Some] if this is an [Signed64](DataCell::Signed64) variant or if this is another
    /// number that can be losslessly represented as a [i64].
    ///
    /// **Note:** Floats are only returned when in the range where there aren't
    /// any gaps in the integers that can be represented as a float.
    pub fn try_as_i64(&self) -> (r: Option<i64>)
        ensures
            match r {
                Some(x) => self@.to_i64() == Some(x as int),
                None => self@.to_i64() is None,
            },
    {
        match self.integral_within(-0x8000_0000_0000_0000, 0x7fff_ffff_ffff_ffff, F32_MIN_EXACT_INTEGER, F32_MAX_EXACT_INTEGER, F64_MIN_EXACT_INTEGER, F64_MAX_EXACT_INTEGER) {
            Some(v) => Some(v as i64),
            None => None,
        }
    }

    /// Returns [Some] if this is an [Signed128](DataCell::Signed128) variant or if this is another
    /// number that can be losslessly represented as a [i128].
    ///
    /// **Note:** Floats are only returned when in the range where there aren't
    /// any gaps in the integers that can be represented as a float.
    pub fn try_as_i128(&self) -> (r: Option<i128>)
        ensures
            match r {
                Some(x) => self@.to_i128() == Some(x as int),
                None => self@.to_i128() is None,
            },
    {
        match self.integral_within(i128::MIN, i128::MAX, F32_MIN_EXACT_INTEGER, F32_MAX_EXACT_INTEGER, F64_MIN_EXACT_INTEGER, F64_MAX_EXACT_INTEGER) {
            Some(v) => Some(v as i128),
            None => None,
        }
    }

    /// Returns [Some] if this is an [Unsigned128](DataCell::Unsigned128) variant
    /// or if this is another number that can be losslessly represented as a
    /// [u128].
    ///
    /// **Note:** Floats are only returned when in the range where there aren't
    /// any gaps in the integers that can be represented as a float.
    pub fn try_as_u128(&self) -> (r: Option<u128>)
        ensures
            match r {
                Some(x) => self@.to_u128() == Some(x as int),
                None => self@.to_u128() is None,
            },
    {
        if let DataCell::Unsigned128(num) = self {
            return Some(*num);
        }
        match self.integral_within(
            0,
            i128::MAX,
            0,
            F32_MAX_EXACT_INTEGER,
            0,
            F64_MAX_EXACT_INTEGER,
        ) {
            Some(v) => Some(v as u128),
            None => None,
        }
    }

    /// The integer that the cell holds or denotes, when it lies in a range
    /// (see [`CellValue::integral_within`]).
    fn integral_within(
        &self,
        lo: i128,
        hi: i128,
        f32_lo: i128,
        f32_hi: i128,
        f64_lo: i128,
        f64_hi: i128,
    ) -> (r: Option<i128>)
        requires
            -0x8000_0000_0000_0000 < f32_lo,
            f32_hi < 0x8000_0000_0000_0000,
            -0x8000_0000_0000_0000 < f64_lo,
            f64_hi < 0x8000_0000_0000_0000,
        ensures
            opt_i128(r) == self@.integral_within(
                lo as int,
                hi as int,
                f32_lo as int,
                f32_hi as int,
                f64_lo as int,
                f64_hi as int,
            ),
    {
        match self {
            DataCell::Unsigned8(n) => in_range(*n as i128, lo, hi),
            DataCell::Unsigned16(n) => in_range(*n as i128, lo, hi),
            DataCell::Unsigned32(n) => in_range(*n as i128, lo, hi),
            DataCell::Unsigned64(n) => in_range(*n as i128, lo, hi),
            DataCell::Unsigned128(n) => {
                if *n <= 0x7fff_ffff_ffff_ffff_ffff_ffff_ffff_ffff {
                    in_range(*n as i128, lo, hi)
                } else {
                    None
                }
            },
            DataCell::Signed8(n) => in_range(*n as i128, lo, hi),
            DataCell::Signed16(n) => in_range(*n as i128, lo, hi),
            DataCell::Signed32(n) => in_range(*n as i128, lo, hi),
            DataCell::Signed64(n) => in_range(*n as i128, lo, hi),
            DataCell::Signed128(n) => in_range(*n, lo, hi),
            DataCell::Float32(b) => f32_integral_in(*b, f32_lo, f32_hi),
            DataCell::Float64(b) => f64_integral_in(*b, f64_lo, f64_hi),
            _ => None,
        }
    }

    /// Returns [Some] if this is a [Float32](DataCell::Float32) variant
    /// or if this is another number that can be losslessly represented
    /// as a binary32 number: the bit pattern of that number.
    ///
    /// **Note:** binary64 numbers are not returned as binary32, due to
    /// differences in precision. Likewise, integers wider than 16 bits are
    /// only returned when they fit in 16 bits: `255u32` is returned, but
    /// [u32::MAX] is not, as it exceeds [u16::MAX].
    pub fn try_as_f32(&self) -> (r: Option<u32>)
        ensures
            r is Some <==> self@.has_f32(),
            r matches Some(y) ==> self@.is_f32_of(y),
    {
        match self {
            DataCell::Float32(b) => Some(*b),
            DataCell::Unsigned8(n) => Some(f32_from_integer(*n as i32)),
            DataCell::Unsigned16(n) => Some(f32_from_integer(*n as i32)),
            DataCell::Unsigned32(n) => if *n <= 0xffff { Some(f32_from_integer(*n as i32)) } else { None },
            DataCell::Unsigned64(n) => if *n <= 0xffff { Some(f32_from_integer(*n as i32)) } else { None },
            DataCell::Unsigned128(n) => if *n <= 0xffff { Some(f32_from_integer(*n as i32)) } else { None },
            DataCell::Signed8(n) => Some(f32_from_integer(*n as i32)),
            DataCell::Signed16(n) => Some(f32_from_integer(*n as i32)),
            DataCell::Signed32(n) => {
                if -0x8000 <= *n && *n <= 0x7fff { Some(f32_from_integer(*n)) } else { None }
            },
            DataCell::Signed64(n) => {
                if -0x8000 <= *n && *n <= 0x7fff { Some(f32_from_integer(*n as i32)) } else { None }
            },
            DataCell::Signed128(n) => {
                if -0x8000 <= *n && *n <= 0x7fff { Some(f32_from_integer(*n as i32)) } else { None }
            },
            _ => None,
        }
    }

    /// Returns [Some] if this is a [Float64](DataCell::Float64) variant
    /// or if this is another number that can be losslessly represented
    /// as a binary64 number: the bit pattern of that number.
    ///
    /// **Note:** Integers greater than 16 bits will generally not be
    /// returned as a binary32 number due to gaps. So, `255u32` will be
    /// returned, but [u32::MAX] will not be returned as it exceeds
    /// [u16::MAX].
    pub fn try_as_f64(&self) -> (r: Option<u64>)
        ensures
            r is Some <==> self@.has_f64(),
            r matches Some(x) ==> self@.is_f64_of(x),
    {
        match self {
            DataCell::Float32(b) => Some(f64_from_f32(*b)),
            DataCell::Float64(b) => Some(*b),
            DataCell::Unsigned8(n) => Some(f64_from_integer(*n as i64)),
            DataCell::Unsigned16(n) => Some(f64_from_integer(*n as i64)),
            DataCell::Unsigned32(n) => if *n <= 0xffff { Some(f64_from_integer(*n as i64)) } else { None },
            DataCell::Unsigned64(n) => {
                if *n <= 0xffff_ffff { Some(f64_from_integer(*n as i64)) } else { None }
            },
            DataCell::Unsigned128(n) => {
                if *n <= 0xffff_ffff { Some(f64_from_integer(*n as i64)) } else { None }
            },
            DataCell::Signed8(n) => Some(f64_from_integer(*n as i64)),
            DataCell::Signed16(n) => Some(f64_from_integer(*n as i64)),
            DataCell::Signed32(n) => Some(f64_from_integer(*n as i64)),
            DataCell::Signed64(n) => {
                if -0x8000_0000 <= *n && *n <= 0x7fff_ffff { Some(f64_from_integer(*n)) } else { None }
            },
            DataCell::Signed128(n) => {
                if -0x8000_0000 <= *n && *n <= 0x7fff_ffff {
                    Some(f64_from_integer(*n as i64))
                } else {
                    None
                }
            },
            _ => None,
        }
    }

    /// Create the [Float32](DataCell::Float32) variant from the bit
    /// pattern of a binary32 number.
    pub fn f32_bits(bits: u32) -> (r: Self)
        ensures
            r@ == CellValue::Float32(bits),
    {
        DataCell::Float32(bits)
    }

    /// Returns the bit pattern if this is a [Float32](DataCell::Float32) variant.
    pub fn as_f32(&self) -> (r: Option<u32>)
        ensures
            r == self@.as_f32(),
    {
        if let DataCell::Float32(num) = self {
            Some(*num)
        } else {
            None
        }
    }

    /// Create the [Float64](DataCell::Float64) variant from the bit
    /// pattern of a binary64 number.
    pub fn f64_bits(bits: u64) -> (r: Self)
        ensures
            r@ == CellValue::Float64(bits),
    {
        DataCell::Float64(bits)
    }

    /// Returns the bit pattern if this is a [Float64](DataCell::Float64) variant.
    pub fn as_f64(&self) -> (r: Option<u64>)
        ensures
            r == self@.as_f64(),
    {
        if let DataCell::Float64(num) = self {
            Some(*num)
        } else {
            None
        }
    }
}

/// `std::str::from_utf8`: it succeeds exactly on valid UTF-8, and the
/// string it returns is made of the given bytes.
#[verifier::external_body]
fn str_from_utf8<'a>(bytes: &'a [u8]) -> (r: Option<&'a str>)
    ensures
        r is Some <==> valid_utf8(bytes@),
        r matches Some(s) ==> encode_utf8(s@) == bytes@,
{
    match std::str::from_utf8(bytes) {
        Ok(s) => Some(s),
        Err(_) => None,
    }
}

/// `n` when it lies in `[lo, hi]`.
fn in_range(n: i128, lo: i128, hi: i128) -> (r: Option<i128>)
    ensures
        opt_i128(r) == within(Some(n as int), lo as int, hi as int),
{
    if lo <= n && n <= hi {
        Some(n)
    } else {
        None
    }
}

/// The text of a `Cow<str>`.
fn cow_str<'a, 'd>(c: &'a Cow<'d, str>) -> (s: &'a str)
    ensures
        s@ == c@,
{
    match c {
        Cow::Borrowed(s) => *s,
        Cow::Owned(s) => s.as_str(),
    }
}

/// The bytes of a `Cow<[u8]>`.
fn cow_bytes<'a, 'd>(c: &'a Cow<'d, [u8]>) -> (s: &'a [u8])
    ensures
        s@ == c@,
{
    match c {
        Cow::Borrowed(s) => *s,
        Cow::Owned(v) => v.as_slice(),
    }
}

/// A copy of a `Cow<str>` that borrows exactly when the original does.
fn clone_cow_str<'d>(c: &Cow<'d, str>) -> (r: Cow<'d, str>)
    ensures
        r@ == c@,
        r is Borrowed <==> c is Borrowed,
{
    match c {
        Cow::Borrowed(s) => Cow::Borrowed(*s),
        Cow::Owned(s) => Cow::Owned(s.clone()),
    }
}

/// A copy of a `Cow<[u8]>` that borrows exactly when the original does.
fn clone_cow_bytes<'d>(c: &Cow<'d, [u8]>) -> (r: Cow<'d, [u8]>)
    ensures
        r@ == c@,
        r is Borrowed <==> c is Borrowed,
{
    match c {
        Cow::Borrowed(s) => Cow::Borrowed(*s),
        Cow::Owned(v) => Cow::Owned(slice_to_vec(v.as_slice())),
    }
}

impl<'d> Clone for DataCell<'d> {
    /// A copy of the cell that shares borrowed text and bytes with it
    /// (unlike [`DataCell::cloned`]).
    fn clone(&self) -> (r: Self)
        ensures
            r@ == self@,
            r.is_owned() == self.is_owned(),
    {
        match self {
            DataCell::Empty => DataCell::Empty,
            DataCell::Text(t) => DataCell::Text(clone_cow_str(t)),
            DataCell::Bytes(b) => DataCell::Bytes(clone_cow_bytes(b)),
            DataCell::Unsigned8(n) => DataCell::Unsigned8(*n),
            DataCell::Unsigned16(n) => DataCell::Unsigned16(*n),
            DataCell::Unsigned32(n) => DataCell::Unsigned32(*n),
            DataCell::Unsigned64(n) => DataCell::Unsigned64(*n),
            DataCell::Unsigned128(n) => DataCell::Unsigned128(*n),
            DataCell::Signed8(n) => DataCell::Signed8(*n),
            DataCell::Signed16(n) => DataCell::Signed16(*n),
            DataCell::Signed32(n) => DataCell::Signed32(*n),
            DataCell::Signed64(n) => DataCell::Signed64(*n),
            DataCell::Signed128(n) => DataCell::Signed128(*n),
            DataCell::Float32(b) => DataCell::Float32(*b),
            DataCell::Float64(b) => DataCell::Float64(*b),
        }
    }
}

impl From<()> for DataCell<'static> {
    fn from(value: ()) -> (r: Self) {
        DataCell::Empty
    }
}

impl vstd::std_specs::convert::FromSpecImpl<()> for DataCell<'static> {
    open spec fn obeys_from_spec() -> bool {
        true
    }

    open spec fn from_spec(value: ()) -> Self {
        DataCell::Empty
    }
}

impl From<String> for DataCell<'static> {
    fn from(value: String) -> (r: Self) {
        DataCell::Text(Cow::Owned(value))
    }
}

impl vstd::std_specs::convert::FromSpecImpl<String> for DataCell<'static> {
    open spec fn obeys_from_spec() -> bool {
        true
    }

    open spec fn from_spec(value: String) -> Self {
        DataCell::Text(Cow::Owned(value))
    }
}

impl<'a> From<&'a str> for DataCell<'a> {
    fn from(value: &'a str) -> (r: Self) {
        DataCell::Text(Cow::Borrowed(value))
    }
}

impl<'a> vstd::std_specs::convert::FromSpecImpl<&'a str> for DataCell<'a> {
    open spec fn obeys_from_spec() -> bool {
        true
    }

    open spec fn from_spec(value: &'a str) -> Self {
        DataCell::Text(Cow::Borrowed(value))
    }
}

impl From<Vec<u8>> for DataCell<'static> {
    fn from(value: Vec<u8>) -> (r: Self) {
        DataCell::Bytes(Cow::Owned(value))
    }
}

impl vstd::std_specs::convert::FromSpecImpl<Vec<u8>> for DataCell<'static> {
    open spec fn obeys_from_spec() -> bool {
        true
    }

    open spec fn from_spec(value: Vec<u8>) -> Self {
        DataCell::Bytes(Cow::Owned(value))
    }
}

impl<'a> From<&'a [u8]> for DataCell<'a> {
    fn from(value: &'a [u8]) -> (r: Self) {
        DataCell::Bytes(Cow::Borrowed(value))
    }
}

impl<'a> vstd::std_specs::convert::FromSpecImpl<&'a [u8]> for DataCell<'a> {
    open spec fn obeys_from_spec() -> bool {
        true
    }

    open spec fn from_spec(value: &'a [u8]) -> Self {
        DataCell::Bytes(Cow::Borrowed(value))
    }
}

impl From<u8> for DataCell<'static> {
    fn from(value: u8) -> (r: Self) {
        DataCell::Unsigned8(value)
    }
}

impl vstd::std_specs::convert::FromSpecImpl<u8> for DataCell<'static> {
    open spec fn obeys_from_spec() -> bool {
        true
    }

    open spec fn from_spec(value: u8) -> Self {
        DataCell::Unsigned8(value)
    }
}

impl From<u16> for DataCell<'static> {
    fn from(value: u16) -> (r: Self) {
        DataCell::Unsigned16(value)
    }
}

impl vstd::std_specs::convert::FromSpecImpl<u16> for DataCell<'static> {
    open spec fn obeys_from_spec() -> bool {
        true
    }

    open spec fn from_spec(value: u16) -> Self {
        DataCell::Unsigned16(value)
    }
}

impl From<u32> for DataCell<'static> {
    fn from(value: u32) -> (r: Self) {
        DataCell::Unsigned32(value)
    }
}

impl vstd::std_specs::convert::FromSpecImpl<u32> for DataCell<'static> {
    open spec fn obeys_from_spec() -> bool {
        true
    }

    open spec fn from_spec(value: u32) -> Self {
        DataCell::Unsigned32(value)
    }
}

impl From<u64> for DataCell<'static> {
    fn from(value: u64) -> (r: Self) {
        DataCell::Unsigned64(value)
    }
}

impl vstd::std_specs::convert::FromSpecImpl<u64> for DataCell<'static> {
    open spec fn obeys_from_spec() -> bool {
        true
    }

    open spec fn from_spec(value: u64) -> Self {
        DataCell::Unsigned64(value)
    }
}

impl From<u128> for DataCell<'static> {
    fn from(value: u128) -> (r: Self) {
        DataCell::Unsigned128(value)
    }
}

impl vstd::std_specs::convert::FromSpecImpl<u128> for DataCell<'static> {
    open spec fn obeys_from_spec() -> bool {
        true
    }

    open spec fn from_spec(value: u128) -> Self {
        DataCell::Unsigned128(value)
    }
}

impl From<i8> for DataCell<'static> {
    fn from(value: i8) -> (r: Self) {
        DataCell::Signed8(value)
    }
}

impl vstd::std_specs::convert::FromSpecImpl<i8> for DataCell<'static> {
    open spec fn obeys_from_spec() -> bool {
        true
    }

    open spec fn from_spec(value: i8) -> Self {
        DataCell::Signed8(value)
    }
}

impl From<i16> for DataCell<'static> {
    fn from(value: i16) -> (r: Self) {
        DataCell::Signed16(value)
    }
}

impl vstd::std_specs::convert::FromSpecImpl<i16> for DataCell<'static> {
    open spec fn obeys_from_spec() -> bool {
        true
    }

    open spec fn from_spec(value: i16) -> Self {
        DataCell::Signed16(value)
    }
}

impl From<i32> for DataCell<'static> {
    fn from(value: i32) -> (r: Self) {
        DataCell::Signed32(value)
    }
}

impl vstd::std_specs::convert::FromSpecImpl<i32> for DataCell<'static> {
    open spec fn obeys_from_spec() -> bool {
        true
    }

    open spec fn from_spec(value: i32) -> Self {
        DataCell::Signed32(value)
    }
}

impl From<i64> for DataCell<'static> {
    fn from(value: i64) -> (r: Self) {
        DataCell::Signed64(value)
    }
}

impl vstd::std_specs::convert::FromSpecImpl<i64> for DataCell<'static> {
    open spec fn obeys_from_spec() -> bool {
        true
    }

    open spec fn from_spec(value: i64) -> Self {
        DataCell::Signed64(value)
    }
}

impl From<i128> for DataCell<'static> {
    fn from(value: i128) -> (r: Self) {
        DataCell::Signed128(value)
    }
}

impl vstd::std_specs::convert::FromSpecImpl<i128> for DataCell<'static> {
    open spec fn obeys_from_spec() -> bool {
        true
    }

    open spec fn from_spec(value: i128) -> Self {
        DataCell::Signed128(value)
    }
}

/// `str::into_string` on a boxed string: the same text as a `String`,
/// without copying.
#[verifier::external_body]
fn boxed_str_into_string(b: Box<str>) -> (r: String)
    ensures
        r@ == b@,
{
    b.into_string()
}

impl From<Box<str>> for DataCell<'static> {
    fn from(value: Box<str>) -> (r: Self)
        ensures
            r@ == CellValue::Text(value@),
            r.is_owned(),
    {
        DataCell::Text(Cow::Owned(boxed_str_into_string(value)))
    }
}

/// The value `from` builds out of a `Box<str>` cannot be written as a spec
/// value (it owns a buffer made from the box); `from` states its view
/// instead.
impl vstd::std_specs::convert::FromSpecImpl<Box<str>> for DataCell<'static> {
    open spec fn obeys_from_spec() -> bool {
        false
    }

    open spec fn from_spec(value: Box<str>) -> Self {
        DataCell::Empty
    }
}

impl From<Box<[u8]>> for DataCell<'static> {
    fn from(value: Box<[u8]>) -> (r: Self)
        ensures
            r@ == CellValue::Bytes(value@),
            r.is_owned(),
    {
        DataCell::Bytes(Cow::Owned(value.into_vec()))
    }
}

/// The value `from` builds out of a `Box<[u8]>` cannot be written as a spec
/// value (it owns a buffer made from the box); `from` states its view
/// instead.
impl vstd::std_specs::convert::FromSpecImpl<Box<[u8]>> for DataCell<'static> {
    open spec fn obeys_from_spec() -> bool {
        false
    }

    open spec fn from_spec(value: Box<[u8]>) -> Self {
        DataCell::Empty
    }
}

} // verus!
