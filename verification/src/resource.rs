//! State shared by all nodes: the global append-only block store,
//! the consensus configuration, and the miner list.

use crate::block::BitcoinBlock;
use crate::consensus::NakamotoConsensusConfig;
use vstd::prelude::*;

verus! {

/// The shared resources of a Bitcoin network run. `total_hash_power`
/// is the sum of the miners' raw hash-power draws; a miner's mean
/// mining interval is `total_hash_power * average_interval / own
/// draw`, which scales the aggregate block interval to the target.
pub struct BitcoinResource {
    pub blocks: Vec<BitcoinBlock>,
    pub config: NakamotoConsensusConfig,
    pub miners: Vec<usize>,
    pub total_hash_power: u64,
}

impl BitcoinResource {
    pub fn new(
        average_num_of_blocks: usize,
        average_block_mining_interval: u64,
        confirmation_depth: i32,
        genesis_block_index: usize,
        difficulty: u64,
        num_of_miners: usize,
    ) -> (r: BitcoinResource)
        ensures
            r.blocks@.len() == 0,
            r.config.average_block_mining_interval == average_block_mining_interval,
            r.config.confirmation_depth == confirmation_depth,
            r.config.genesis_block_index == genesis_block_index,
            r.config.difficulty == difficulty,
            r.miners@.len() == 0,
            r.total_hash_power == 0,
    {
        BitcoinResource {
            blocks: Vec::with_capacity(average_num_of_blocks),
            config: NakamotoConsensusConfig::new(
                average_block_mining_interval,
                confirmation_depth,
                genesis_block_index,
                difficulty,
            ),
            miners: Vec::with_capacity(num_of_miners),
            total_hash_power: 0,
        }
    }

    pub fn num_of_miners(&self) -> (r: usize)
        ensures
            r == self.miners@.len(),
    {
        self.miners.len()
    }
}

} // verus!
