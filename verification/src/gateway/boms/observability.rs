//! What log searches look for.

use vstd::prelude::*;

verus! {

/// The mark of a failed write of a bom in the log.
pub const BOM_WRITE_FAILED_MARKER: &'static str = "bom_write_failed";

} // verus!
