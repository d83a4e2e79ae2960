use vstd::prelude::*;

verus! {

/// Errors surfaced by decoding, encoding and range-checked conversions.
#[derive(Debug)]
pub enum Error {
    /// An argument or an encoded value lies outside its admissible range.
    InvalidArgument(&'static str),
    /// The input ended in the middle of a token.
    IoError(&'static str),
}

} // verus!
