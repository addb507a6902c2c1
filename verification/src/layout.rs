//! The files of a state dump directory.

use vstd::prelude::*;

verus! {

/// Name of the file that holds every key and value of the store's state column.
pub const STATE_DUMP_FILE: &'static str = "state_dump";

/// Name of the file that holds the encoded state roots.
pub const GENESIS_ROOTS_FILE: &'static str = "genesis_roots";

} // verus!
