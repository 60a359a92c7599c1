//! Nakamoto longest-chain consensus, per node.
//!
//! A node's consensus state tracks the highest connected block it has
//! seen (the canonical head), the length of that chain, and the set
//! of blocks it considers confirmed (`confirmation_depth` blocks deep
//! under the head).

use crate::block::BitcoinBlock;
use crate::block::wf_block_store;
use crate::event::BlockConfirmationEvent;
use crate::event::Event;
use crate::local_block_tree::LocalBlockTree;
use crate::local_block_tree::ancestor_at_height;
use crate::local_block_tree::lemma_ancestor_at_height_in_store;
use crate::local_block_tree::tree_ancestors;
use crate::local_block_tree::tree_wf;
use crate::scheduled_event::ScheduledEvent;
use crate::network::queue_only_grows;
use crate::simulator::Simulator;
use std::collections::HashSet;
use vstd::prelude::*;

verus! {

/// Marker for consensus algorithm configurations.
pub trait ConsensusConfig {

}

/// Parameters of the Nakamoto consensus run. The mining interval is
/// in nanoseconds of simulated time.
#[derive(Debug, Clone)]
pub struct NakamotoConsensusConfig {
    pub average_block_mining_interval: u64,
    pub confirmation_depth: i32,
    pub genesis_block_index: usize,
    pub difficulty: u64,
}

impl ConsensusConfig for NakamotoConsensusConfig {

}

impl NakamotoConsensusConfig {
    /// Config well-formedness: a non-negative confirmation depth and
    /// genesis at id 0.
    pub open spec fn wf(&self) -> bool {
        &&& self.confirmation_depth >= 0
        &&& self.genesis_block_index == 0
    }

    pub fn new(
        average_block_mining_interval: u64,
        confirmation_depth: i32,
        genesis_block_index: usize,
        difficulty: u64,
    ) -> (r: NakamotoConsensusConfig)
        ensures
            r.average_block_mining_interval == average_block_mining_interval,
            r.confirmation_depth == confirmation_depth,
            r.genesis_block_index == genesis_block_index,
            r.difficulty == difficulty,
    {
        NakamotoConsensusConfig {
            average_block_mining_interval,
            confirmation_depth,
            genesis_block_index,
            difficulty,
        }
    }

    pub fn get_average_block_mining_interval(&self) -> (r: u64)
        ensures
            r == self.average_block_mining_interval,
    {
        self.average_block_mining_interval
    }

    pub fn get_genesis_index(&self) -> (r: usize)
        ensures
            r == self.genesis_block_index,
    {
        self.genesis_block_index
    }
}

/// The confirmation tip for a head of height `h` under depth `d`: the
/// head's single ancestor at height `h - d`, if the chain is deep
/// enough and the walk stays inside the tree.
pub open spec fn confirmation_target(
    dom: Set<usize>,
    blocks: Seq<BitcoinBlock>,
    head: usize,
    depth: i32,
) -> Option<usize> {
    let h = blocks[head as int].height;
    if h > depth {
        ancestor_at_height(dom, blocks, head, (h - depth) as i32)
    } else {
        None
    }
}

/// Per-node Nakamoto consensus state.
#[derive(Debug)]
pub struct NakamotoConsensus {
    pub longest_chain_len: i32,
    pub current_main_chain_head_index: usize,
    pub confirmed_blocks: HashSet<usize>,
    pub node_index: usize,
}

impl NakamotoConsensus {
    /// Consensus invariant against the global store: the canonical
    /// head is a real block and the recorded chain length is exactly
    /// its height.
    pub open spec fn wf(&self, blocks: Seq<BitcoinBlock>) -> bool {
        &&& self.current_main_chain_head_index < blocks.len()
        &&& self.longest_chain_len == blocks[self.current_main_chain_head_index as int].height
    }

    pub fn new(config: &NakamotoConsensusConfig) -> (r: NakamotoConsensus)
        ensures
            r.longest_chain_len == 0,
            r.current_main_chain_head_index == config.genesis_block_index,
            r.confirmed_blocks@ == Set::<usize>::empty(),
            r.node_index == 0,
            forall|blocks: Seq<BitcoinBlock>|
                wf_block_store(blocks) && config.genesis_block_index == 0 ==> #[trigger] r.wf(
                    blocks,
                ),
    {
        NakamotoConsensus {
            longest_chain_len: 0,
            current_main_chain_head_index: config.genesis_block_index,
            confirmed_blocks: HashSet::new(),
            node_index: 0,
        }
    }

    /// Resets this state to genesis for the node at `node_index`.
    pub fn initial_configuration(&mut self, config: &NakamotoConsensusConfig, node_index: usize)
        ensures
            final(self).longest_chain_len == 0,
            final(self).current_main_chain_head_index == config.genesis_block_index,
            final(self).confirmed_blocks@ == Set::<usize>::empty(),
            final(self).node_index == node_index,
            forall|blocks: Seq<BitcoinBlock>|
                wf_block_store(blocks) && config.genesis_block_index == 0
                    ==> #[trigger] final(self).wf(blocks),
    {
        self.longest_chain_len = 0;
        self.current_main_chain_head_index = config.genesis_block_index;
        self.confirmed_blocks = HashSet::new();
        self.node_index = node_index;
    }

    pub fn get_longest_chain_len(&self) -> (r: i32)
        ensures
            r == self.longest_chain_len,
    {
        self.longest_chain_len
    }

    pub fn get_canonical_chain_head_index(&self) -> (r: usize)
        ensures
            r == self.current_main_chain_head_index,
    {
        self.current_main_chain_head_index
    }

    pub fn get_node_index(&self) -> (r: usize)
        ensures
            r == self.node_index,
    {
        self.node_index
    }

    /// Reaction to a newly usable (connected-to-genesis) block: a
    /// strictly higher block becomes the new canonical head and the
    /// confirmed set is recomputed; an equal-height competitor does
    /// not displace the head (first seen wins).
    ///
    /// With `confirmation_depth` zero, every block that becomes the
    /// head while sitting in the tree is confirmed immediately: its
    /// own confirmation event is scheduled at delay zero.
    pub fn new_incoming_block(
        &mut self,
        block_index: usize,
        blocks: &Vec<BitcoinBlock>,
        config: &NakamotoConsensusConfig,
        local_block_trees: &LocalBlockTree,
        simulator: &mut Simulator,
    )
        requires
            wf_block_store(blocks@),
            local_block_trees.wf(blocks@),
            old(self).wf(blocks@),
            config.wf(),
            block_index < blocks@.len(),
            old(simulator).wf(),
            old(simulator).inserted_events < u64::MAX,
        ensures
            final(self).wf(blocks@),
            final(self).node_index == old(self).node_index,
            final(simulator).wf(),
            final(simulator).simulation_time == old(simulator).simulation_time,
            queue_only_grows(old(simulator).queue_multiset(), final(simulator).queue_multiset()),
            blocks@[block_index as int].height <= old(self).longest_chain_len ==> {
                &&& final(self).longest_chain_len == old(self).longest_chain_len
                &&& final(self).current_main_chain_head_index == old(
                    self,
                ).current_main_chain_head_index
                &&& final(self).confirmed_blocks@ == old(self).confirmed_blocks@
                &&& final(simulator).event_queue@ == old(simulator).event_queue@
                &&& final(simulator).inserted_events == old(simulator).inserted_events
            },
            blocks@[block_index as int].height > old(self).longest_chain_len ==> {
                &&& final(self).current_main_chain_head_index == block_index
                &&& final(self).longest_chain_len == blocks@[block_index as int].height
                &&& chain_update_ensures(
                    local_block_trees@.dom(),
                    blocks@,
                    block_index,
                    config.confirmation_depth,
                    old(self).node_index,
                    *old(simulator),
                    *final(simulator),
                    final(self).confirmed_blocks@,
                    old(self).confirmed_blocks@,
                )
            },
    {
        let block_height = blocks[block_index].height;
        if block_height > self.longest_chain_len {
            self.longest_chain_len = block_height;
            self.current_main_chain_head_index = block_index;
            self.update_chain(blocks, config, local_block_trees, simulator);
        }
    }

    /// Recomputes the confirmed set for the current head: if the
    /// chain is deeper than `confirmation_depth` and the ancestor at
    /// the confirmation height is fully received, that ancestor and
    /// its received ancestors become the confirmed set and its
    /// confirmation event fires at delay zero; otherwise nothing
    /// changes.
    pub fn update_chain(
        &mut self,
        blocks: &Vec<BitcoinBlock>,
        config: &NakamotoConsensusConfig,
        local_block_trees: &LocalBlockTree,
        simulator: &mut Simulator,
    )
        requires
            wf_block_store(blocks@),
            local_block_trees.wf(blocks@),
            old(self).wf(blocks@),
            config.wf(),
            old(simulator).wf(),
            old(simulator).inserted_events < u64::MAX,
        ensures
            final(self).wf(blocks@),
            final(self).longest_chain_len == old(self).longest_chain_len,
            final(self).current_main_chain_head_index == old(self).current_main_chain_head_index,
            final(self).node_index == old(self).node_index,
            final(simulator).wf(),
            final(simulator).simulation_time == old(simulator).simulation_time,
            queue_only_grows(old(simulator).queue_multiset(), final(simulator).queue_multiset()),
            chain_update_ensures(
                local_block_trees@.dom(),
                blocks@,
                old(self).current_main_chain_head_index,
                config.confirmation_depth,
                old(self).node_index,
                *old(simulator),
                *final(simulator),
                final(self).confirmed_blocks@,
                old(self).confirmed_blocks@,
            ),
    {
        let current_main_head_height = blocks[self.current_main_chain_head_index].height;
        let confirmation_depth = config.confirmation_depth;
        if current_main_head_height > confirmation_depth {
            proof {
                crate::block::lemma_height_bounds(
                    blocks@,
                    self.current_main_chain_head_index as int,
                );
            }
            let height_of_confirmed_blocks = current_main_head_height - confirmation_depth;
            if let Some(highest_confirmed_block_index) = local_block_trees
                .get_single_ancestor_of_height(
                self.current_main_chain_head_index,
                height_of_confirmed_blocks,
                blocks,
            ) {
                proof {
                    lemma_ancestor_at_height_in_store(
                        local_block_trees@.dom(),
                        blocks@,
                        self.current_main_chain_head_index,
                        height_of_confirmed_blocks,
                    );
                }
                self.confirmed_blocks = local_block_trees.get_all_single_ancestors(
                    highest_confirmed_block_index,
                    blocks,
                );
                let block_confirmation_event = Event::BlockConfirmation(
                    BlockConfirmationEvent::new(highest_confirmed_block_index, self.node_index),
                );
                simulator.put_event(block_confirmation_event, 0);
            }
        }
    }
}

/// What one chain update does to the confirmed set and the event
/// queue: nothing, when the chain is too shallow or the confirmation
/// ancestor is missing; otherwise the confirmed set becomes the
/// received ancestors of the confirmation tip `c`, and exactly one
/// confirmation event for `c` is scheduled at the current instant.
pub open spec fn chain_update_ensures(
    dom: Set<usize>,
    blocks: Seq<BitcoinBlock>,
    head: usize,
    depth: i32,
    node_index: usize,
    sim_old: Simulator,
    sim_new: Simulator,
    confirmed_new: Set<usize>,
    confirmed_old: Set<usize>,
) -> bool {
    match confirmation_target(dom, blocks, head, depth) {
        Some(c) => {
            &&& confirmed_new == tree_ancestors(dom, blocks, c)
            &&& sim_new.inserted_events == sim_old.inserted_events + 1
            &&& sim_new.queue_multiset() == sim_old.queue_multiset().insert(
                ScheduledEvent {
                    event: Event::BlockConfirmation(
                        BlockConfirmationEvent { block_index: c, node_index },
                    ),
                    time: sim_old.simulation_time,
                    number: sim_old.inserted_events,
                },
            )
        },
        None => {
            &&& confirmed_new == confirmed_old
            &&& sim_new.event_queue@ == sim_old.event_queue@
            &&& sim_new.inserted_events == sim_old.inserted_events
        },
    }
}

} // verus!
