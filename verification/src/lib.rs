//! Typed cells, the kinds that tag them, and the strict and mixed series built
//! on them.
//!
//! Binary64 values are held by their bit patterns.  The library compares
//! them, converts between them and integers, and computes with them.  What
//! needs the text of a binary64 value, to parse it or to print it, is
//! described by a [`float::FloatOp`] that the caller carries out; the library
//! decides which conversion is due and what becomes of its answer.

pub mod arith;
pub mod cell;
pub mod convert;
pub mod dataframe;
pub mod dtype;
pub mod equality;
pub mod error;
pub mod float;
pub mod ieee;
pub mod laws;
pub mod order;
pub mod prelude;
pub mod series;
pub mod syntax;
pub mod text;
pub mod traits;
pub mod utils;
