//! Fixed addresses of the target machine.

use vstd::prelude::*;

verus! {

/// The address of the first cell of the `pointer` segment.
pub const POINTER_BASE_ADDRESS: &'static str = "3";

/// The address of the first cell of the `temp` segment.
pub const TEMP_BASE_ADDRESS: &'static str = "5";

} // verus!
