//! A small-buffer-optimized growable container representation with two typed
//! front ends: a UTF-8 text buffer ([`Str`]) and a generic homogeneous array
//! ([`Vector`]).
//!
//! The shared low level is [`repr::Repr`]: a tagged storage primitive that
//! keeps up to [`INLINE_SIZE`] bytes of elements in its inline arm and
//! transparently promotes to a growable heap arm once that byte budget is
//! exceeded. Promotion is one-directional and the reported capacity never
//! decreases. Every operation carries a contract over a `Seq` view of the
//! logical contents.

use vstd::prelude::*;

pub mod repr;
pub mod text;
pub mod array;

pub use crate::text::Str;
pub use crate::array::Vector;

verus! {

/// Byte budget of the inline storage arm, sized for a 64-bit address width:
/// three machine words (24 bytes) minus the one-byte discriminant.
pub const INLINE_SIZE: usize = 23;

} // verus!
