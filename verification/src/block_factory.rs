//! Construction of new blocks from sampled sizes.

use crate::block::BitcoinBlock;
use crate::randomness::RandomnessSource;
use crate::simulator::Simulator;
use vstd::prelude::*;

verus! {

pub const BITCOIN_BLOCK_HEADER_SIZE: u64 = 80;

/// Compact-block transmission carries roughly 6 bytes per 200 bytes
/// of body.
pub const COMPACT_RATIO_NUMERATOR: u64 = 6;

pub const COMPACT_RATIO_DENOMINATOR: u64 = 200;

/// The wire size of a compact block of raw size `size`: the header
/// plus the compacted body. A size below one header counts as a bare
/// header.
pub open spec fn compact_size_of(size: u64) -> u64 {
    if size < BITCOIN_BLOCK_HEADER_SIZE {
        BITCOIN_BLOCK_HEADER_SIZE as u64
    } else {
        ((size - BITCOIN_BLOCK_HEADER_SIZE) as int * (COMPACT_RATIO_NUMERATOR as int) / (
        COMPACT_RATIO_DENOMINATOR as int) + (BITCOIN_BLOCK_HEADER_SIZE as int)) as u64
    }
}

/// Makes transaction-free blocks.
pub struct BlockFactory;

impl BlockFactory {
    /// A raw block size drawn from the block-size distribution.
    pub fn sample_bitcoin_block_size<R: RandomnessSource>(rand: &mut R) -> u64 {
        rand.block_size()
    }

    /// The compact wire size of a block of raw size `size`.
    pub fn compact_size(size: u64) -> (r: u64)
        ensures
            r == compact_size_of(size),
            r >= BITCOIN_BLOCK_HEADER_SIZE,
    {
        if size < BITCOIN_BLOCK_HEADER_SIZE {
            return BITCOIN_BLOCK_HEADER_SIZE;
        }
        let body: u64 = size - BITCOIN_BLOCK_HEADER_SIZE;
        let compacted128: u128 = (body as u128) * 6u128 / 200u128;
        proof {
            let b = body as int;
            assert(b * 6 / 200 <= b) by (nonlinear_arith)
                requires
                    b >= 0,
            ;
        }
        let compacted: u64 = compacted128 as u64;
        compacted + BITCOIN_BLOCK_HEADER_SIZE
    }

    /// A freshly mined block extending `parent`: created now, one
    /// level above the parent, with a compacted sampled size.
    pub fn sample_bitcoin_block<R: RandomnessSource>(
        blocks: &Vec<BitcoinBlock>,
        simulator: &Simulator,
        rand: &mut R,
        creator: Option<usize>,
        parent: usize,
        difficulty: u64,
        weight: u64,
    ) -> (r: BitcoinBlock)
        requires
            parent < blocks@.len(),
            blocks@[parent as int].height < i32::MAX,
        ensures
            r.creation_time == simulator.simulation_time,
            r.creator == creator,
            r.height == blocks@[parent as int].height + 1,
            r.parents@ == seq![parent],
            r.size >= BITCOIN_BLOCK_HEADER_SIZE,
            r.difficulty == difficulty,
            r.weight == weight,
    {
        let raw_size = BlockFactory::sample_bitcoin_block_size(rand);
        let parent_block_height = blocks[parent].height;
        let mut parents_vec: Vec<usize> = Vec::new();
        parents_vec.push(parent);
        proof {
            assert(parents_vec@ =~= seq![parent]);
        }
        BitcoinBlock::new_with_parents(
            simulator.simulation_time,
            creator,
            parent_block_height + 1,
            parents_vec,
            BlockFactory::compact_size(raw_size),
            difficulty,
            weight,
        )
    }
}

} // verus!
