//! `==` on [`DataCell`]: cells are equal when they are the same variant
//! holding equal contents, with IEEE 754 equality for floating-point
//! numbers.
use std::borrow::Cow;
use vstd::prelude::*;
use vstd::std_specs::cmp::PartialEqSpecImpl;
use vstd::utf8::*;

use crate::binary::{f32_eq, f32_equal, f64_eq, f64_equal};
use crate::cell::{CellValue, DataCell};

verus! {

impl CellValue {
    /// The cells are equal: same variant, equal text, bytes or integers,
    /// and IEEE 754 equal floating-point numbers.
    pub open spec fn equals(self, other: CellValue) -> bool {
        match (self, other) {
            (CellValue::Empty, CellValue::Empty) => true,
            (CellValue::Text(a), CellValue::Text(b)) => a == b,
            (CellValue::Bytes(a), CellValue::Bytes(b)) => a == b,
            (CellValue::Unsigned8(a), CellValue::Unsigned8(b)) => a == b,
            (CellValue::Unsigned16(a), CellValue::Unsigned16(b)) => a == b,
            (CellValue::Unsigned32(a), CellValue::Unsigned32(b)) => a == b,
            (CellValue::Unsigned64(a), CellValue::Unsigned64(b)) => a == b,
            (CellValue::Unsigned128(a), CellValue::Unsigned128(b)) => a == b,
            (CellValue::Signed8(a), CellValue::Signed8(b)) => a == b,
            (CellValue::Signed16(a), CellValue::Signed16(b)) => a == b,
            (CellValue::Signed32(a), CellValue::Signed32(b)) => a == b,
            (CellValue::Signed64(a), CellValue::Signed64(b)) => a == b,
            (CellValue::Signed128(a), CellValue::Signed128(b)) => a == b,
            (CellValue::Float32(a), CellValue::Float32(b)) => f32_equal(a, b),
            (CellValue::Float64(a), CellValue::Float64(b)) => f64_equal(a, b),
            _ => false,
        }
    }
}

/// The two byte strings are equal.
fn bytes_equal(a: &[u8], b: &[u8]) -> (r: bool)
    ensures
        r == (a@ == b@),
{
    if a.len() != b.len() {
        return false;
    }
    let mut i: usize = 0;
    while i < a.len()
        invariant
            a@.len() == b@.len(),
            i <= a@.len(),
            forall|j: int| 0 <= j < i ==> a@[j] == b@[j],
        decreases a@.len() - i,
    {
        if a[i] != b[i] {
            return false;
        }
        i = i + 1;
    }
    assert(a@ =~= b@);
    true
}

/// The two texts are equal (compared by their UTF-8 encodings).
fn text_equal(a: &Cow<'_, str>, b: &Cow<'_, str>) -> (r: bool)
    ensures
        r == (a@ == b@),
{
    let x: &str = match a {
        Cow::Borrowed(s) => *s,
        Cow::Owned(s) => s.as_str(),
    };
    let y: &str = match b {
        Cow::Borrowed(s) => *s,
        Cow::Owned(s) => s.as_str(),
    };
    let r = bytes_equal(x.as_bytes(), y.as_bytes());
    proof {
        encode_utf8_decode_utf8(x@);
        encode_utf8_decode_utf8(y@);
    }
    r
}

/// The two byte strings held in copy-on-write form are equal.
fn cow_bytes_equal(a: &Cow<'_, [u8]>, b: &Cow<'_, [u8]>) -> (r: bool)
    ensures
        r == (a@ == b@),
{
    let x: &[u8] = match a {
        Cow::Borrowed(s) => *s,
        Cow::Owned(v) => v.as_slice(),
    };
    let y: &[u8] = match b {
        Cow::Borrowed(s) => *s,
        Cow::Owned(v) => v.as_slice(),
    };
    bytes_equal(x, y)
}

impl<'d> PartialEq for DataCell<'d> {
    fn eq(&self, other: &Self) -> (r: bool) {
        match (self, other) {
            (DataCell::Empty, DataCell::Empty) => true,
            (DataCell::Text(a), DataCell::Text(b)) => text_equal(a, b),
            (DataCell::Bytes(a), DataCell::Bytes(b)) => cow_bytes_equal(a, b),
            (DataCell::Unsigned8(a), DataCell::Unsigned8(b)) => *a == *b,
            (DataCell::Unsigned16(a), DataCell::Unsigned16(b)) => *a == *b,
            (DataCell::Unsigned32(a), DataCell::Unsigned32(b)) => *a == *b,
            (DataCell::Unsigned64(a), DataCell::Unsigned64(b)) => *a == *b,
            (DataCell::Unsigned128(a), DataCell::Unsigned128(b)) => *a == *b,
            (DataCell::Signed8(a), DataCell::Signed8(b)) => *a == *b,
            (DataCell::Signed16(a), DataCell::Signed16(b)) => *a == *b,
            (DataCell::Signed32(a), DataCell::Signed32(b)) => *a == *b,
            (DataCell::Signed64(a), DataCell::Signed64(b)) => *a == *b,
            (DataCell::Signed128(a), DataCell::Signed128(b)) => *a == *b,
            (DataCell::Float32(a), DataCell::Float32(b)) => f32_eq(*a, *b),
            (DataCell::Float64(a), DataCell::Float64(b)) => f64_eq(*a, *b),
            _ => false,
        }
    }
}

impl<'d> PartialEqSpecImpl for DataCell<'d> {
    open spec fn obeys_eq_spec() -> bool {
        true
    }

    open spec fn eq_spec(&self, other: &Self) -> bool {
        self@.equals(other@)
    }
}

} // verus!
