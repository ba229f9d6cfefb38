//! Runtime values.

use vstd::prelude::*;

verus! {

/// A runtime value: a double-precision number, held as the 64 bits of its
/// IEEE-754 encoding.
///
/// The library stores and moves values; it never computes with them. Two
/// values are equal when their encodings are.
#[derive(Debug, Clone, Copy, PartialEq, Eq, Structural)]
pub struct Value(pub u64);

} // verus!
