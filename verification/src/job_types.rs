//! Job type labels. Only the full index walk is implemented; the others are
//! reserved names for later hashing and extraction workers.

use vstd::prelude::*;

verus! {

/// Full index walk.
pub const SCAN: &'static str = "scan";

/// Compute content hash for dedup / integrity (reserved).
pub const HASH_CONTENT: &'static str = "hash_content";

/// Extract document properties or selective text (reserved).
pub const EXTRACT_METADATA: &'static str = "extract_metadata";

} // verus!
