//! # `protean`
//! A flexible data type, [`DataCell`], whose variants keep a fixed order
//! so that serialization formats which number enum variants stay
//! backward compatible.
//!
//! Floating-point payloads are carried as their IEEE 754 bit patterns;
//! the [`binary`] module gives those patterns their meaning.

pub mod binary;
pub mod cell;
pub mod eq;
pub mod laws;

pub use cell::{CellValue, DataCell};
