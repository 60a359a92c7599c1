//! Observer logic: what each CSV log row contains and when one is
//! emitted. Writing the rows out is the caller's business; the
//! conditions and the row contents are computed (and specified) here.

use crate::block::BitcoinBlock;
use crate::event::Event;
use crate::local_block_tree::LocalBlockTree;
use crate::local_block_tree::ancestor_at_height;
use crate::local_block_tree::common_ancestor_spec;
use crate::local_block_tree::tree_wf;
use crate::message::DataType;
use crate::message::MessageType;
use crate::network::BitcoinNetwork;
use std::collections::HashMap;
use std::collections::HashSet;
use vstd::prelude::*;

verus! {

broadcast use vstd::std_specs::hash::group_hash_axioms;

/// What an executed event means to an observer.
#[derive(Debug, Clone, Copy, PartialEq, Eq, Structural)]
pub enum EventLoggerInfo {
    /// Block, node, time.
    IsBlockConfirmationEvent(usize, usize, u64),
    /// Block, from, node, message kind, time.
    IsReceiveEvent(usize, usize, usize, MessageType, u64),
    NotLoggerEvent,
}

impl Default for EventLoggerInfo {
    fn default() -> (r: EventLoggerInfo)
        ensures
            r is NotLoggerEvent,
    {
        EventLoggerInfo::NotLoggerEvent
    }
}

impl Event {
    /// The observer's view of this event at the given instant.
    pub fn logger_data(&self, time: u64) -> (r: EventLoggerInfo)
        ensures
            r == match *self {
                Event::BlockConfirmation(ev) => EventLoggerInfo::IsBlockConfirmationEvent(
                    ev.block_index,
                    ev.node_index,
                    time,
                ),
                Event::Receive(ev) => EventLoggerInfo::IsReceiveEvent(
                    ev.block_index,
                    ev.from,
                    ev.node,
                    ev.msg_type,
                    time,
                ),
                _ => EventLoggerInfo::NotLoggerEvent,
            },
    {
        match self {
            Event::BlockConfirmation(ev) => EventLoggerInfo::IsBlockConfirmationEvent(
                ev.block_index,
                ev.node_index,
                time,
            ),
            Event::Receive(ev) => EventLoggerInfo::IsReceiveEvent(
                ev.block_index,
                ev.from,
                ev.node,
                ev.msg_type,
                time,
            ),
            _ => EventLoggerInfo::NotLoggerEvent,
        }
    }
}

/// One row of the confirmations log.
#[derive(Debug, Clone, Copy, PartialEq, Eq, Structural)]
pub struct ConfirmationRow {
    pub time: u64,
    pub node_index: usize,
    pub block_height: i32,
    pub block_size: u64,
    pub block_creation_time: u64,
    pub block_creator: Option<usize>,
}

/// Emits one row per confirmation event.
#[derive(Debug, Clone, Copy)]
pub struct BlockConfirmationLogger;

impl BlockConfirmationLogger {
    /// A row is emitted exactly for confirmation events.
    pub fn csv_output_condition_after_event(&self, info: &EventLoggerInfo) -> (r: bool)
        ensures
            r == (info matches EventLoggerInfo::IsBlockConfirmationEvent(..)),
    {
        match info {
            EventLoggerInfo::IsBlockConfirmationEvent(..) => true,
            _ => false,
        }
    }

    /// The row for a confirmation event.
    pub fn csv_event_output(&self, info: &EventLoggerInfo, network: &BitcoinNetwork) -> (r: Option<
        ConfirmationRow,
    >)
        ensures
            r == match *info {
                EventLoggerInfo::IsBlockConfirmationEvent(block_index, node_index, time) => {
                    if block_index < network.resource.blocks@.len() {
                        let b = network.resource.blocks@[block_index as int];
                        Some(
                            ConfirmationRow {
                                time,
                                node_index,
                                block_height: b.height,
                                block_size: b.size,
                                block_creation_time: b.creation_time,
                                block_creator: b.creator,
                            },
                        )
                    } else {
                        None
                    }
                },
                _ => None,
            },
    {
        match info {
            EventLoggerInfo::IsBlockConfirmationEvent(block_index, node_index, time) => {
                if *block_index < network.resource.blocks.len() {
                    Some(
                        ConfirmationRow {
                            time: *time,
                            node_index: *node_index,
                            block_height: network.get_block_height(*block_index),
                            block_size: network.get_block_size(*block_index),
                            block_creation_time: network.get_block_creation_time(*block_index),
                            block_creator: network.get_block_creator(*block_index),
                        },
                    )
                } else {
                    None
                }
            },
            _ => None,
        }
    }
}

/// One row of a propagation-delay log.
#[derive(Debug, Clone, Copy, PartialEq, Eq, Structural)]
pub struct PropagationRow {
    pub time: u64,
    pub propagation_delay: u64,
    pub block_index: usize,
    pub block_height: i32,
    pub block_creator: Option<usize>,
    pub block_size: u64,
}

/// How many distinct receivers make a block count as propagated, for
/// a population of `n` and a share given per hundred.
pub open spec fn propagation_target(n: nat, share_per_hundred: u64) -> int {
    (n * share_per_hundred) as int / 100
}

/// Emits one row the moment a block has been received by exactly the
/// configured share of the nodes.
#[derive(Debug)]
pub struct BlockPropagationDelayLogger {
    pub share_per_hundred: u64,
    pub received_by: HashMap<usize, HashSet<usize>>,
}

impl BlockPropagationDelayLogger {
    /// A logger for the moment `share_per_hundred` percent of the
    /// nodes have the block.
    pub fn new(share_per_hundred: u64) -> (r: BlockPropagationDelayLogger)
        ensures
            r.share_per_hundred == share_per_hundred,
            r.received_by@ == Map::<usize, HashSet<usize>>::empty(),
    {
        BlockPropagationDelayLogger { share_per_hundred, received_by: HashMap::new() }
    }

    /// Records the receiver of an arriving block payload and reports
    /// whether that arrival made the set of distinct receivers hit
    /// the target count exactly.
    pub fn csv_output_condition_after_event(
        &mut self,
        info: &EventLoggerInfo,
        network: &BitcoinNetwork,
    ) -> (r: bool)
        ensures
            match *info {
                EventLoggerInfo::IsReceiveEvent(
                    block,
                    _,
                    node,
                    MessageType::DataMessage(DataType::IsBlock),
                    _,
                ) => {
                    let pre = if old(self).received_by@.contains_key(block) {
                        old(self).received_by@[block]@
                    } else {
                        Set::<usize>::empty()
                    };
                    &&& final(self).received_by@.contains_key(block)
                    &&& final(self).received_by@[block]@ == pre.insert(node)
                    &&& r == (pre.insert(node).len() == propagation_target(
                        network.ecs.num_of_nodes as nat,
                        old(self).share_per_hundred,
                    ))
                },
                _ => !r && *final(self) == *old(self),
            },
            final(self).share_per_hundred == old(self).share_per_hundred,
    {
        if let EventLoggerInfo::IsReceiveEvent(
            block,
            _,
            node,
            MessageType::DataMessage(DataType::IsBlock),
            _,
        ) = info {
            let mut receivers: HashSet<usize> = match self.received_by.remove(block) {
                Some(s) => s,
                None => HashSet::new(),
            };
            receivers.insert(*node);
            let count = receivers.len();
            self.received_by.insert(*block, receivers);
            let n = network.get_num_of_nodes();
            let share = self.share_per_hundred;
            proof {
                assert((n as int) * (share as int) < 0x100000000000000000000000000000000)
                    by (nonlinear_arith)
                    requires
                        n <= 0xffffffffffffffffu64,
                        share <= 0xffffffffffffffffu64,
                ;
            }
            let target128: u128 = (n as u128) * (share as u128) / 100;
            return (count as u128) == target128;
        }
        false
    }

    /// The row for the arrival that completed the target share.
    pub fn csv_event_output(&self, info: &EventLoggerInfo, network: &BitcoinNetwork) -> (r: Option<
        PropagationRow,
    >)
        ensures
            r == match *info {
                EventLoggerInfo::IsReceiveEvent(block_index, _, _, _, time) => {
                    if block_index < network.resource.blocks@.len() {
                        let b = network.resource.blocks@[block_index as int];
                        Some(
                            PropagationRow {
                                time,
                                propagation_delay: if time >= b.creation_time {
                                    (time - b.creation_time) as u64
                                } else {
                                    0u64
                                },
                                block_index,
                                block_height: b.height,
                                block_creator: b.creator,
                                block_size: b.size,
                            },
                        )
                    } else {
                        None
                    }
                },
                _ => None,
            },
    {
        match info {
            EventLoggerInfo::IsReceiveEvent(block_index, _, _, _, time) => {
                if *block_index < network.resource.blocks.len() {
                    let creation = network.get_block_creation_time(*block_index);
                    let delay: u64 = if *time >= creation {
                        *time - creation
                    } else {
                        0
                    };
                    Some(
                        PropagationRow {
                            time: *time,
                            propagation_delay: delay,
                            block_index: *block_index,
                            block_height: network.get_block_height(*block_index),
                            block_creator: network.get_block_creator(*block_index),
                            block_size: network.get_block_size(*block_index),
                        },
                    )
                } else {
                    None
                }
            },
            _ => None,
        }
    }
}

/// One row of the reorg log.
#[derive(Debug, Clone, Copy, PartialEq, Eq, Structural)]
pub struct ReorgRow {
    pub time: u64,
    pub node_index: usize,
    pub block_height: i32,
    pub block_creation_time: u64,
    pub block_creator: Option<usize>,
    pub reorg_length: i32,
}

/// Watches an observer-side copy of the whole block graph and
/// reports whenever a data arrival moves some node's canonical head
/// off its previous chain.
#[derive(Debug)]
pub struct BlockchainReorgLogger {
    pub network_view_block_tree: LocalBlockTree,
    pub new_block_received: bool,
    pub previous_head_chain_index: Option<usize>,
    pub current_node_index: Option<usize>,
}

/// The reorg logger's fields stay meaningful for the given network:
/// its tree is well-formed against the store and its remembered
/// indices are real.
pub open spec fn reorg_logger_wf(
    logger: BlockchainReorgLogger,
    blocks: Seq<BitcoinBlock>,
    num_of_nodes: usize,
) -> bool {
    &&& tree_wf(logger.network_view_block_tree@, blocks)
    &&& match logger.previous_head_chain_index {
        Some(p) => p < blocks.len(),
        None => true,
    }
    &&& match logger.current_node_index {
        Some(n) => n < num_of_nodes,
        None => true,
    }
}

impl BlockchainReorgLogger {
    pub fn new() -> (r: BlockchainReorgLogger)
        ensures
            r.network_view_block_tree@.dom() == Set::<usize>::empty().insert(0usize),
            !r.new_block_received,
            r.previous_head_chain_index is None,
            r.current_node_index is None,
            forall|blocks: Seq<BitcoinBlock>|
                crate::block::wf_block_store(blocks) ==> #[trigger] tree_wf(
                    r.network_view_block_tree@,
                    blocks,
                ),
    {
        BlockchainReorgLogger {
            network_view_block_tree: LocalBlockTree::new(),
            new_block_received: false,
            previous_head_chain_index: None,
            current_node_index: None,
        }
    }
}

impl BitcoinNetwork {
    /// Before a data arrival is executed: mirror the block into the
    /// observer's tree and remember the receiving node's current
    /// head.
    pub fn block_reorg_before(
        &self,
        reorg_logger: &mut BlockchainReorgLogger,
        block_index: &usize,
        node: &usize,
    )
        requires
            self.wf(),
            reorg_logger_wf(*old(reorg_logger), self.resource.blocks@, self.ecs.num_of_nodes),
            *block_index < self.resource.blocks@.len(),
            *node < self.ecs.num_of_nodes,
        ensures
            reorg_logger_wf(*final(reorg_logger), self.resource.blocks@, self.ecs.num_of_nodes),
            final(reorg_logger).network_view_block_tree@.dom() == old(
                reorg_logger,
            ).network_view_block_tree@.dom().insert(*block_index),
            final(reorg_logger).previous_head_chain_index == Some(
                self.ecs.consensus_algorithm@[*node as int].current_main_chain_head_index,
            ),
            final(reorg_logger).current_node_index == Some(*node),
            final(reorg_logger).new_block_received,
    {
        reorg_logger.network_view_block_tree.add(*block_index, &self.resource.blocks);
        reorg_logger.previous_head_chain_index = Some(
            self.ecs.consensus_algorithm[*node].current_main_chain_head_index,
        );
        reorg_logger.current_node_index = Some(*node);
        reorg_logger.new_block_received = true;
    }

    /// After the event: whether the watched node's head moved off the
    /// previous head's chain — the previous head is no longer the
    /// head's ancestor at its own height.
    pub fn block_reorg_after(&self, reorg_logger: &mut BlockchainReorgLogger) -> (r: bool)
        requires
            self.wf(),
            reorg_logger_wf(*old(reorg_logger), self.resource.blocks@, self.ecs.num_of_nodes),
        ensures
            reorg_logger_wf(*final(reorg_logger), self.resource.blocks@, self.ecs.num_of_nodes),
            !final(reorg_logger).new_block_received,
            final(reorg_logger).network_view_block_tree == old(
                reorg_logger,
            ).network_view_block_tree,
            final(reorg_logger).previous_head_chain_index == old(
                reorg_logger,
            ).previous_head_chain_index,
            final(reorg_logger).current_node_index == old(reorg_logger).current_node_index,
            r == (old(reorg_logger).new_block_received && match (
                old(reorg_logger).current_node_index,
                old(reorg_logger).previous_head_chain_index,
            ) {
                (Some(node_index), Some(previous_head)) => ancestor_at_height(
                    old(reorg_logger).network_view_block_tree@.dom(),
                    self.resource.blocks@,
                    self.ecs.consensus_algorithm@[node_index as int].current_main_chain_head_index,
                    self.resource.blocks@[previous_head as int].height,
                ) != Some(previous_head),
                _ => false,
            }),
    {
        if reorg_logger.new_block_received {
            reorg_logger.new_block_received = false;
            if let Some(node_index) = reorg_logger.current_node_index {
                let current_head_chain_index =
                    self.ecs.consensus_algorithm[node_index].current_main_chain_head_index;
                if let Some(previous_head_index) = reorg_logger.previous_head_chain_index {
                    let ancestor_index = reorg_logger.network_view_block_tree
                        .get_single_ancestor_of_height(
                        current_head_chain_index,
                        self.resource.blocks[previous_head_index].get_height(),
                        &self.resource.blocks,
                    );
                    let moved = match ancestor_index {
                        Some(a) => a != previous_head_index,
                        None => true,
                    };
                    return moved;
                }
            }
        }
        false
    }

    /// The length of a detected reorg: how far the node's new head
    /// sits above its common ancestor with the previous head.
    pub fn block_reorg_output_length(
        &self,
        reorg_logger: &BlockchainReorgLogger,
        previous_head: usize,
        node_index: &usize,
    ) -> (r: i32)
        requires
            self.wf(),
            reorg_logger_wf(*reorg_logger, self.resource.blocks@, self.ecs.num_of_nodes),
            previous_head < self.resource.blocks@.len(),
            *node_index < self.ecs.num_of_nodes,
        ensures
            ({
                let head =
                    self.ecs.consensus_algorithm@[*node_index as int].current_main_chain_head_index;
                let ancestor = common_ancestor_spec(
                    reorg_logger.network_view_block_tree@.dom(),
                    self.resource.blocks@,
                    head,
                    previous_head,
                );
                r == self.resource.blocks@[head as int].height - self.resource.blocks@[ancestor as int].height
            }),
    {
        let node_chain_head =
            self.ecs.consensus_algorithm[*node_index].current_main_chain_head_index;
        let common_ancestor = reorg_logger.network_view_block_tree.get_common_ancestor(
            node_chain_head,
            previous_head,
            &self.resource.blocks,
        );
        proof {
            crate::block::lemma_height_bounds(self.resource.blocks@, node_chain_head as int);
            crate::block::lemma_height_bounds(self.resource.blocks@, common_ancestor as int);
        }
        let reorg_length: i32 = self.resource.blocks[node_chain_head].get_height()
            - self.resource.blocks[common_ancestor].get_height();
        reorg_length
    }
}

} // verus!
