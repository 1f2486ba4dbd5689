//! A small fixed-dimension matrix library.
//!
//! `Matrix<T, ROWS, COLS>` is a dense two-dimensional container whose
//! dimensions are part of the type, so mismatched shapes are rejected when a
//! program is built.  Elements are any type with the capability traits this
//! crate defines: producing an additive identity (`Zero`), adding and
//! multiplying (`Arith`), and taking a square root (`Sqrt`).  Every operation
//! carries a contract that pins its result down element by element.

pub mod laws;
pub mod matrix;
pub mod num;

pub use matrix::Matrix;
pub use num::Arith;
pub use num::Sqrt;
pub use num::Zero;
