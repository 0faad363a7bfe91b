//! Finalized blocks as the live feed announces them.

use vstd::prelude::*;

verus! {

/// A block announced to clients: its number and its hash in hex.
#[derive(Debug, Clone, PartialEq, Eq)]
pub struct BlockInfo {
    pub number: u64,
    pub hash: String,
}

} // verus!
