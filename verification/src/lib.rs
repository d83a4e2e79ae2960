//! Core of a relative-error quantile sketch: the byte-level wire codec.
//!
//! The crate holds the sequential byte readers and writers, the
//! variable-length integer tokens with their ZigZag signed form, the
//! bit-rotation encoding of doubles, the frame flags, the full store and
//! sketch frame codecs — each with a proved round-trip law — and the array
//! discipline of the dense bucket stores: window growth, shifting,
//! centering and the collapse decisions.  Everything here computes on plain
//! integers and byte sequences; a double is carried as its raw IEEE-754 bit
//! pattern, and the arithmetic on the values themselves stays with the
//! caller.

pub mod dense;
pub mod error;
pub mod frame;
pub mod io;
pub mod store;
pub mod varbit;
pub mod varenc;

pub use error::Error;
