//! `IMAGE_DEBUG_TYPE` discriminators used by managed images.

use vstd::prelude::*;

verus! {

/// CodeView symbol data (`RSDS` payload pointing at a PDB).
pub const CODEVIEW: i32 = 2;

/// `/src/sync` determinism marker.
pub const DETERMINISTIC: i32 = 16;

/// An embedded portable PDB in the MPDB wrapper.
pub const EMBEDDED_PORTABLE_PDB: i32 = 17;

/// PDB content hash (`"<algorithm>\0" + digest`).
pub const PDB_CHECKSUM: i32 = 19;

} // verus!
