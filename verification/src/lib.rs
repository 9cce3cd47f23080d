//! Merkle tree overlays for typed binary encodings.
//!
//! An overlay answers, for a type and a generalized index, which node of the
//! type's merkle tree lives at that index. The tree itself is never built:
//! every answer is computed from the index and the type's declared capacities.

pub mod field;
pub mod ident;
pub mod merkle_tree_overlay;
pub mod tree_arithmetic;

use vstd::prelude::*;

verus! {

/// A generalized index: the address of a node in the implicit complete binary
/// tree of a value. The root is `0`; the children of `i` are `2i + 1` and
/// `2i + 2`.
pub type NodeIndex = u64;

/// The size in bytes of one leaf chunk.
pub const BYTES_PER_CHUNK: usize = 32;

} // verus!
