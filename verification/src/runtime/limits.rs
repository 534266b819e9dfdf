//! Static limits of the analysis passes.
use vstd::prelude::*;

verus! {

/// The deepest nesting of scopes (action blocks and function bodies)
/// that the name resolution pass accepts.
pub const MAX_SCOPE_DEPTH: usize = 128;

} // verus!
