//! Client identifiers.

use vstd::prelude::*;

verus! {

/// A client is named by a 16-bit number and has nothing else to it.
pub type Client = u16;

} // verus!
