//! Blocks of the shared append-only store.
//!
//! A block records its creator, height, single parent, wire size and
//! creation time. Block ids are dense indices into the global store:
//! id 0 is genesis, and every other block's parent precedes it.

use vstd::prelude::*;

verus! {

/// A mined block header stand-in. Times are nanoseconds of simulated
/// time; difficulty and weight are consulted only by mining pacing.
#[derive(Debug, Clone)]
pub struct BitcoinBlock {
    pub creation_time: u64,
    pub creator: Option<usize>,
    pub height: i32,
    pub parents: Vec<usize>,
    pub size: u64,
    pub difficulty: u64,
    pub weight: u64,
}

impl BitcoinBlock {
    pub fn get_creation_time(&self) -> (r: u64)
        ensures
            r == self.creation_time,
    {
        self.creation_time
    }

    pub fn get_creator(&self) -> (r: Option<usize>)
        ensures
            r == self.creator,
    {
        self.creator
    }

    pub fn get_height(&self) -> (r: i32)
        ensures
            r == self.height,
    {
        self.height
    }

    pub fn get_size(&self) -> (r: u64)
        ensures
            r == self.size,
    {
        self.size
    }

    pub fn get_parents(&self) -> (r: &Vec<usize>)
        ensures
            r == &self.parents,
    {
        &self.parents
    }

    pub fn get_difficulty(&self) -> (r: u64)
        ensures
            r == self.difficulty,
    {
        self.difficulty
    }

    pub fn get_weight(&self) -> (r: u64)
        ensures
            r == self.weight,
    {
        self.weight
    }

    /// The single parent of a block, or `None` for a parentless block
    /// (genesis).
    pub open spec fn spec_single_parent(&self) -> Option<usize> {
        if self.parents@.len() == 0 {
            None
        } else {
            Some(self.parents@[0])
        }
    }

    pub fn get_single_parent(&self) -> (r: Option<usize>)
        ensures
            r == self.spec_single_parent(),
    {
        if self.parents.len() == 0 {
            return None;
        }
        Some(self.parents[0])
    }

    /// The genesis block: height 0, no parents, created at time 0.
    pub fn generate_genesis_block() -> (r: BitcoinBlock)
        ensures
            r.creation_time == 0,
            r.creator is None,
            r.height == 0,
            r.parents@.len() == 0,
            r.size == 0,
            r.difficulty == 0,
            r.weight == 0,
    {
        BitcoinBlock {
            creation_time: 0,
            difficulty: 0,
            weight: 0,
            creator: None,
            height: 0,
            parents: Vec::new(),
            size: 0,
        }
    }

    pub fn new(
        creation_time: u64,
        creator: Option<usize>,
        height: i32,
        size: u64,
        difficulty: u64,
        weight: u64,
    ) -> (r: BitcoinBlock)
        ensures
            r.creation_time == creation_time,
            r.creator == creator,
            r.height == height,
            r.parents@.len() == 0,
            r.size == size,
            r.difficulty == difficulty,
            r.weight == weight,
    {
        BitcoinBlock {
            creation_time,
            creator,
            height,
            parents: Vec::new(),
            size,
            difficulty,
            weight,
        }
    }

    pub fn new_with_parents(
        creation_time: u64,
        creator: Option<usize>,
        height: i32,
        parents: Vec<usize>,
        size: u64,
        difficulty: u64,
        weight: u64,
    ) -> (r: BitcoinBlock)
        ensures
            r.creation_time == creation_time,
            r.creator == creator,
            r.height == height,
            r.parents == parents,
            r.size == size,
            r.difficulty == difficulty,
            r.weight == weight,
    {
        let mut block = BitcoinBlock::new(creation_time, creator, height, size, difficulty, weight);
        block.parents = parents;
        block
    }
}

/// The parent id of non-genesis block `b` in `blocks`.
pub open spec fn parent_id(blocks: Seq<BitcoinBlock>, b: int) -> usize {
    blocks[b].parents@[0]
}

/// Well-formedness of the global block store: genesis sits at id 0
/// with height 0 and no parents; every later block has exactly one
/// parent, which precedes it, and sits one level above that parent.
pub open spec fn wf_block_store(blocks: Seq<BitcoinBlock>) -> bool {
    &&& 1 <= blocks.len() <= 0x7fff_ffff
    &&& blocks[0].parents@.len() == 0
    &&& blocks[0].height == 0
    &&& forall|i: int|
        1 <= i < blocks.len() ==> {
            &&& (#[trigger] blocks[i].parents@).len() == 1
            &&& blocks[i].parents@[0] < i
            &&& blocks[i].height == blocks[blocks[i].parents@[0] as int].height + 1
        }
}

/// In a well-formed store, a block's height is bounded by its id.
pub proof fn lemma_height_bounds(blocks: Seq<BitcoinBlock>, i: int)
    requires
        wf_block_store(blocks),
        0 <= i < blocks.len(),
    ensures
        0 <= blocks[i].height <= i,
    decreases i,
{
    if i > 0 {
        lemma_height_bounds(blocks, blocks[i].parents@[0] as int);
    }
}

/// Appending a block to a well-formed store keeps it well-formed,
/// provided the new block extends an existing one.
pub proof fn lemma_store_push(blocks: Seq<BitcoinBlock>, b: BitcoinBlock)
    requires
        wf_block_store(blocks),
        blocks.len() < 0x7fff_ffff,
        b.parents@.len() == 1,
        b.parents@[0] < blocks.len(),
        b.height == blocks[b.parents@[0] as int].height + 1,
    ensures
        wf_block_store(blocks.push(b)),
{
    let blocks2 = blocks.push(b);
    assert forall|i: int| 1 <= i < blocks2.len() implies {
        &&& (#[trigger] blocks2[i].parents@).len() == 1
        &&& blocks2[i].parents@[0] < i
        &&& blocks2[i].height == blocks2[blocks2[i].parents@[0] as int].height + 1
    } by {
        if i < blocks.len() {
            assert(blocks2[i] == blocks[i]);
            assert(blocks2[blocks[i].parents@[0] as int] == blocks[blocks[i].parents@[0] as int]);
        } else {
            assert(blocks2[i] == b);
        }
    }
}

} // verus!
