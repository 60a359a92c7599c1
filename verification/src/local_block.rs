//! A node's record of one received block.

use std::collections::HashSet;
use vstd::prelude::*;

verus! {

/// Per-node bookkeeping for one block: the children of the block that
/// this node has also received, and whether the block's unbroken
/// parent chain down to genesis is present locally.
#[derive(Debug)]
pub struct LocalBlock {
    pub block_index: usize,
    pub children_index: HashSet<usize>,
    pub is_connected_to_genesis: bool,
}

impl LocalBlock {
    pub fn new(block_index: usize) -> (r: LocalBlock)
        ensures
            r.block_index == block_index,
            r.children_index@ == Set::<usize>::empty(),
            !r.is_connected_to_genesis,
    {
        LocalBlock {
            block_index,
            children_index: HashSet::new(),
            is_connected_to_genesis: false,
        }
    }
}

} // verus!
