# protean

A flexible data enum, `DataCell`, whose variants keep a strict order so
that serialization formats that number enum variants stay backward
compatible.

## Layout

- `src/` — the library, with the specifications and proofs of its
  behaviour.
  - `binary.rs`: IEEE 754 binary32/binary64 numbers read from and written
    to their bit patterns with integer arithmetic: the integer a pattern
    denotes, exact encodings of integers, widening binary32 to binary64,
    canonical encodings and IEEE equality.
  - `cell.rs`: `DataCell`, its view `CellValue`, constructors, exact
    accessors (`as_*`), lossless conversions (`try_as_*`), `cloned`,
    `Clone` and the `From` conversions. Floating-point variants carry bit
    patterns.
  - `eq.rs`: `==` on cells, with IEEE equality for floating-point numbers.
  - `laws.rs`: properties that relate the conversions to one another.
- `tests/` — tests that run the library, comparing floating-point
  conversions with Rust's own `f32`/`f64` arithmetic. `tests/order.rs`
  pins every variant of `DataCell` to its position, so that a reordering
  that would break serialized data fails the tests.
- `app/` — what needs outside crates or floating-point numbers:
  `SerdeDataCell` (the same enum with real floats and serde's derives),
  `FloatCell` (the floating-point variants of `DataCell` built and read as
  `f32`/`f64`) and `OwnedDataCell`, a cell that borrows from a buffer it
  owns without copying, built on `yoke`.
