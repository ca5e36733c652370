//! The broadcaster interface: where freshly mined blocks are handed off.

use vstd::prelude::*;

use crate::block::Block;
use crate::error::BlocktreeError;

verus! {

/// A fire-and-forget block broadcaster. A failure surfaces as a
/// `NetworkError`; nothing else is assumed of an implementation.
pub trait Network: Sized {
    /// Hands a mined block to the network layer.
    fn broadcast_block(&self, block: Block) -> (r: Result<(), BlocktreeError>)
        ensures
            r matches Err(e) ==> e is NetworkError,
    ;
}

} // verus!
