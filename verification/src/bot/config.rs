//! The fixed parameters of the search.

use vstd::prelude::*;

verus! {

/// Deepest nominal depth the iterative-deepening driver will try.
pub const MAX_SEARCH_DEPTH: u32 = 16;

/// Budget of check and promotion extensions along one line.
pub const SEARCH_EXTENSION_LIMIT: u32 = 8;

/// Moves ordered at this index or later are searched one ply shallower
/// first, both at the root and inside the tree.
pub const REDUCED_SEARCH_DEPTH: usize = 3;

/// Deepest chain of captures the quiescence search will resolve.
pub const QUIESCENCE_LIMIT: u32 = 32;

/// Number of slots of the transposition table.
pub const T_TABLE_SIZE: usize = 1048576;

} // verus!
