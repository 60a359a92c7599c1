//! The simulated world: node components plus shared resources, and
//! the dispatch of scheduler events into the protocol handlers.

use crate::block::BitcoinBlock;
use crate::block::wf_block_store;
use crate::ecs::BitcoinECS;
use crate::event::BlockMiningProcess;
use crate::event::Event;
use crate::event::GenerateBlockWithoutTxEvent;
use crate::message::MessageType;
use crate::randomness::RandomnessSource;
use crate::resource::BitcoinResource;
use crate::scheduled_event::ScheduledEvent;
use crate::simulator::Simulator;
use vstd::multiset::Multiset;
use vstd::prelude::*;

verus! {

/// A Bitcoin-style gossip network.
pub struct BitcoinNetwork {
    pub ecs: BitcoinECS,
    pub resource: BitcoinResource,
}

/// The parts of the network that event handlers never touch: the
/// topology, the population, the configuration and the mining setup.
pub open spec fn topology_unchanged(pre: BitcoinNetwork, post: BitcoinNetwork) -> bool {
    &&& post.ecs.num_of_nodes == pre.ecs.num_of_nodes
    &&& post.ecs.neighbors@ == pre.ecs.neighbors@
    &&& post.ecs.is_connected@ == pre.ecs.is_connected@
    &&& post.ecs.country@ == pre.ecs.country@
    &&& post.ecs.hash_power@ == pre.ecs.hash_power@
    &&& post.ecs.node_name@ == pre.ecs.node_name@
    &&& post.resource.miners@ == pre.resource.miners@
    &&& post.resource.config == pre.resource.config
    &&& post.resource.total_hash_power == pre.resource.total_hash_power
}

/// No queued event disappears: every entry's multiplicity in the
/// queue is at least what it was (handlers only add).
pub open spec fn queue_only_grows(
    pre: Multiset<ScheduledEvent>,
    post: Multiset<ScheduledEvent>,
) -> bool {
    forall|x: ScheduledEvent| post.count(x) >= pre.count(x)
}

/// The global block store only ever grows, and existing blocks never
/// change (append-only store).
pub open spec fn store_extended(pre: Seq<BitcoinBlock>, post: Seq<BitcoinBlock>) -> bool {
    pre.is_prefix_of(post)
}

impl BitcoinNetwork {
    /// Whole-network well-formedness: a well-formed store (genesis
    /// present, room left to mine), well-formed components, and
    /// miners that are real nodes.
    pub open spec fn wf(&self) -> bool {
        &&& wf_block_store(self.resource.blocks@)
        &&& self.resource.blocks@.len() < 0x7fff_ffff
        &&& self.resource.config.wf()
        &&& self.ecs.wf(self.resource.blocks@)
        &&& forall|k: int|
            0 <= k < self.resource.miners@.len() ==> (#[trigger] self.resource.miners@[k])
                < self.ecs.num_of_nodes
    }

    /// Room in the insertion counter for anything one event handler
    /// can schedule: a couple of events per known block (inventory
    /// relays and confirmations), or one per neighbor of any node.
    pub open spec fn has_room(&self, sim: Simulator) -> bool {
        &&& sim.inserted_events + 2 * self.resource.blocks@.len() + 10 <= u64::MAX
        &&& forall|n: int|
            0 <= n < self.ecs.neighbors@.len() ==> sim.inserted_events + (
            #[trigger] self.ecs.neighbors@[n]).0@.len() + 1 <= u64::MAX
        &&& sim.inserted_events + self.resource.miners@.len() <= u64::MAX
    }

    /// The comfortable headroom the executable check tests for: each
    /// quantity sits far below the point where the insertion counter
    /// could run out. Comfort implies room.
    pub open spec fn comfortable_room(&self, sim: Simulator) -> bool {
        &&& sim.inserted_events <= u64::MAX / 4
        &&& self.resource.blocks@.len() <= u64::MAX / 8
        &&& self.resource.miners@.len() <= u64::MAX / 8
        &&& forall|n: int|
            0 <= n < self.ecs.neighbors@.len() ==> (#[trigger] self.ecs.neighbors@[n]).0@.len()
                <= u64::MAX / 2
    }

    /// Executable check for counter headroom: true exactly on
    /// comfortable room, which in turn implies `has_room`.
    pub fn check_room(&self, simulator: &Simulator) -> (r: bool)
        ensures
            r == self.comfortable_room(*simulator),
            r ==> self.has_room(*simulator),
    {
        let ins = simulator.inserted_events;
        if ins > u64::MAX / 4 {
            return false;
        }
        if self.resource.blocks.len() as u64 > u64::MAX / 8 {
            return false;
        }
        if self.resource.miners.len() as u64 > u64::MAX / 8 {
            return false;
        }
        let mut n: usize = 0;
        while n < self.ecs.neighbors.len()
            invariant
                n <= self.ecs.neighbors@.len(),
                simulator.inserted_events <= u64::MAX / 4,
                forall|k: int|
                    0 <= k < n ==> (#[trigger] self.ecs.neighbors@[k]).0@.len() <= u64::MAX / 2,
                forall|k: int|
                    0 <= k < n ==> simulator.inserted_events + (
                    #[trigger] self.ecs.neighbors@[k]).0@.len() + 1 <= u64::MAX,
            decreases self.ecs.neighbors@.len() - n,
        {
            if self.ecs.neighbors[n].0.len() as u64 > u64::MAX / 2 {
                return false;
            }
            n = n + 1;
        }
        true
    }

    pub fn new_with_size(
        num_of_nodes: usize,
        average_num_of_blocks: usize,
        average_block_mining_interval: u64,
        confirmation_depth: i32,
        genesis_block_index: usize,
        difficulty: u64,
        num_of_miners: usize,
    ) -> (r: BitcoinNetwork)
        ensures
            r.ecs.num_of_nodes == num_of_nodes,
            r.ecs.lens_ok(),
            r.resource.blocks@.len() == 0,
            r.resource.miners@.len() == 0,
            r.resource.config.average_block_mining_interval == average_block_mining_interval,
            r.resource.config.confirmation_depth == confirmation_depth,
            r.resource.config.genesis_block_index == genesis_block_index,
            r.resource.config.difficulty == difficulty,
    {
        BitcoinNetwork {
            ecs: BitcoinECS::create_with_size(num_of_nodes),
            resource: BitcoinResource::new(
                average_num_of_blocks,
                average_block_mining_interval,
                confirmation_depth,
                genesis_block_index,
                difficulty,
                num_of_miners,
            ),
        }
    }

    pub fn get_block_creation_time(&self, block_index: usize) -> (r: u64)
        requires
            block_index < self.resource.blocks@.len(),
        ensures
            r == self.resource.blocks@[block_index as int].creation_time,
    {
        self.resource.blocks[block_index].get_creation_time()
    }

    pub fn get_block_creator(&self, block_index: usize) -> (r: Option<usize>)
        requires
            block_index < self.resource.blocks@.len(),
        ensures
            r == self.resource.blocks@[block_index as int].creator,
    {
        self.resource.blocks[block_index].get_creator()
    }

    pub fn get_block_height(&self, block_index: usize) -> (r: i32)
        requires
            block_index < self.resource.blocks@.len(),
        ensures
            r == self.resource.blocks@[block_index as int].height,
    {
        self.resource.blocks[block_index].get_height()
    }

    pub fn get_block_size(&self, block_index: usize) -> (r: u64)
        requires
            block_index < self.resource.blocks@.len(),
        ensures
            r == self.resource.blocks@[block_index as int].size,
    {
        self.resource.blocks[block_index].get_size()
    }

    pub fn get_block_parents(&self, block_index: usize) -> (r: &Vec<usize>)
        requires
            block_index < self.resource.blocks@.len(),
        ensures
            r@ == self.resource.blocks@[block_index as int].parents@,
    {
        self.resource.blocks[block_index].get_parents()
    }

    pub fn get_num_of_nodes(&self) -> (r: usize)
        ensures
            r == self.ecs.num_of_nodes,
    {
        self.ecs.num_of_nodes
    }
}

impl Simulator {
    /// Pops and executes the next event: the minimal `(fire_time,
    /// insertion number)` entry leaves the queue for good, the clock
    /// advances to its firing time, and its handler's effects happen
    /// — spelled out per event kind below. The world stays
    /// well-formed, the block store only grows, and the topology
    /// stays put.
    pub fn execute_next_event<R: RandomnessSource>(
        &mut self,
        network: &mut BitcoinNetwork,
        rand: &mut R,
    )
        requires
            old(network).wf(),
            old(self).wf(),
            old(network).has_room(*old(self)),
        ensures
            final(network).wf(),
            final(self).wf(),
            final(self).simulation_time >= old(self).simulation_time,
            final(self).inserted_events >= old(self).inserted_events,
            store_extended(old(network).resource.blocks@, final(network).resource.blocks@),
            topology_unchanged(*old(network), *final(network)),
            old(self).event_queue@.len() == 0 ==> {
                &&& final(self).event_queue@ == old(self).event_queue@
                &&& final(network).resource.blocks@ == old(network).resource.blocks@
            },
            old(self).event_queue@.len() > 0 ==> ({
                let se = old(self).event_queue@.last();
                let popped = old(self).queue_multiset().remove(se);
                &&& final(self).simulation_time == se.time
                &&& final(self).queue_multiset().count(se) == 0
                &&& queue_only_grows(popped, final(self).queue_multiset())
                &&& match se.event {
                    Event::BlockConfirmation(_) => {
                        &&& *final(network) == *old(network)
                        &&& final(self).event_queue@ == old(self).event_queue@.drop_last()
                    },
                    Event::BlockMining(ev) => {
                        &&& *final(network) == *old(network)
                        &&& (!(ev.miner < old(network).ecs.num_of_nodes && old(network).ecs.is_connected@[ev.miner as int]) ==> final(self).event_queue@ == old(self).event_queue@.drop_last())
                        &&& ((ev.miner < old(network).ecs.num_of_nodes && old(network).ecs.is_connected@[ev.miner as int]) ==> ({
                            let gen = ScheduledEvent {
                                event: Event::GenerateBlockWithoutTx(
                                    GenerateBlockWithoutTxEvent { node: ev.miner },
                                ),
                                time: crate::simulator::fire_time_of(se.time, 0),
                                number: old(self).inserted_events,
                            };
                            match old(network).ecs.hash_power@[ev.miner as int] {
                                Some(h) => {
                                    &&& final(self).inserted_events == old(self).inserted_events
                                        + 2
                                    &&& exists|delay: u64|
                                        final(self).queue_multiset() == popped.insert(gen).insert(
                                            ScheduledEvent {
                                                event: Event::BlockMining(
                                                    BlockMiningProcess { miner: ev.miner },
                                                ),
                                                time: crate::simulator::fire_time_of(
                                                    se.time,
                                                    delay,
                                                ),
                                                number: (old(self).inserted_events + 1) as u64,
                                            },
                                        )
                                },
                                None => {
                                    &&& final(self).inserted_events == old(self).inserted_events
                                        + 1
                                    &&& final(self).queue_multiset() == popped.insert(gen)
                                },
                            }
                        }))
                    },
                    Event::GenerateBlockWithoutTx(ev) => {
                        &&& (!(ev.node < old(network).ecs.num_of_nodes && old(network).ecs.is_connected@[ev.node as int]) ==> *final(network) == *old(network)
                            && final(self).event_queue@ == old(self).event_queue@.drop_last())
                        &&& ((ev.node < old(network).ecs.num_of_nodes && old(network).ecs.is_connected@[ev.node as int] && old(network).resource.blocks@.len()
                            + 1 < 0x7fff_ffff) ==> ({
                            let pre_blocks = old(network).resource.blocks@;
                            let head = old(network).ecs.consensus_algorithm@[ev.node as int].current_main_chain_head_index;
                            let nb = final(network).resource.blocks@[pre_blocks.len() as int];
                            &&& final(network).resource.blocks@.len() == pre_blocks.len() + 1
                            &&& nb.creator == Some(ev.node)
                            &&& nb.height == pre_blocks[head as int].height + 1
                            &&& nb.parents@ == seq![head]
                            &&& nb.creation_time == se.time
                            &&& final(network).ecs.local_block_tree@[ev.node as int]@.contains_key(
                                pre_blocks.len() as usize,
                            )
                        }))
                    },
                    Event::Receive(ev) => {
                        &&& final(network).resource.blocks@ == old(network).resource.blocks@
                        &&& (!(ev.node < old(network).ecs.num_of_nodes && old(network).ecs.is_connected@[ev.node as int] && ev.block_index < old(network).resource.blocks@.len()) ==> *final(network) == *old(network) && final(self).event_queue@ == old(self).event_queue@.drop_last())
                        &&& ((ev.node < old(network).ecs.num_of_nodes && old(network).ecs.is_connected@[ev.node as int] && ev.block_index < old(network).resource.blocks@.len()) ==> match ev.msg_type {
                            MessageType::DataMessage(_) => final(network).ecs.local_block_tree@[ev.node as int]@.contains_key(ev.block_index),
                            MessageType::InvMessage(_) => {
                                &&& (final(network).ecs.already_seen_blocks@[ev.node as int].0)@
                                    == crate::receive::inv_seen_after(
                                    (old(network).ecs.already_seen_blocks@[ev.node as int].0)@,
                                    ev.block_index,
                                )
                                &&& final(self).inserted_events == old(self).inserted_events
                                    + crate::receive::inv_requests(
                                    (old(network).ecs.already_seen_blocks@[ev.node as int].0)@,
                                    ev.block_index,
                                )
                            },
                            MessageType::RequestDataMessage(_) => ({
                                let seen = (old(network).ecs.already_seen_blocks@[ev.node as int].0)@;
                                let served = seen.contains_key(ev.block_index)
                                    && seen[ev.block_index];
                                &&& (served ==> final(self).inserted_events == old(self).inserted_events + 1)
                                &&& (!served ==> *final(network) == *old(network) && final(self).event_queue@ == old(self).event_queue@.drop_last())
                            }),
                            MessageType::VoteMessage => *final(network) == *old(network) && final(self).event_queue@ == old(self).event_queue@.drop_last(),
                        })
                    },
                    Event::Send(ev) => {
                        &&& crate::send::protocol_state_unchanged(*old(network), *final(network))
                        &&& (!(ev.node < old(network).ecs.num_of_nodes && old(network).ecs.is_connected@[ev.node as int] && ev.block_index < old(network).resource.blocks@.len()) ==> *final(network) == *old(network) && final(self).event_queue@ == old(self).event_queue@.drop_last())
                        &&& ((ev.node < old(network).ecs.num_of_nodes && old(network).ecs.is_connected@[ev.node as int] && ev.block_index < old(network).resource.blocks@.len()) ==> match ev.msg_type {
                            MessageType::InvMessage(_) => final(self).inserted_events == old(self).inserted_events + crate::send::count_targets(
                                old(network).ecs.neighbors@[ev.node as int].0@,
                                ev.from,
                            ),
                            MessageType::DataMessage(_) | MessageType::RequestDataMessage(_) => {
                                &&& (ev.from < old(network).ecs.num_of_nodes ==> final(self).inserted_events == old(self).inserted_events + 1)
                                &&& (ev.from >= old(network).ecs.num_of_nodes ==> *final(network)
                                    == *old(network) && final(self).event_queue@ == old(self).event_queue@.drop_last())
                            },
                            MessageType::VoteMessage => *final(network) == *old(network) && final(self).event_queue@ == old(self).event_queue@.drop_last(),
                        })
                    },
                }
            }),
    {
        let next = self.pop_next_event();
        match next {
            None => {},
            Some(current_scheduled_event) => {
                proof {
                    let se = old(self).event_queue@.last();
                    old(self).lemma_queue_no_duplicates();
                    crate::simulator::lemma_drop_last_to_multiset(old(self).event_queue@);
                    broadcast use vstd::seq_lib::group_to_multiset_ensures;

                    assert(old(self).event_queue@.contains(se));
                    assert(old(self).queue_multiset().count(se) == 1);
                    assert(self.queue_multiset().count(se) == 0);
                }
                match current_scheduled_event.event {
                    Event::BlockConfirmation(_) => {
                        // Carries no mutation; observers log it.
                    },
                    Event::BlockMining(ev) => {
                        network.block_mining(self, rand, &ev);
                        proof {
                            let se = old(self).event_queue@.last();
                            assert(self.queue_multiset().count(se) == 0);
                        }
                    },
                    Event::GenerateBlockWithoutTx(ev) => {
                        network.generate_new_block_without_tx(self, rand, &ev);
                        proof {
                            let se = old(self).event_queue@.last();
                            assert(self.queue_multiset().count(se) == 0);
                        }
                    },
                    Event::Receive(ev) => {
                        network.receive(self, &ev);
                        proof {
                            let se = old(self).event_queue@.last();
                            assert(self.queue_multiset().count(se) == 0);
                        }
                    },
                    Event::Send(ev) => {
                        network.send(self, rand, &ev);
                        proof {
                            let se = old(self).event_queue@.last();
                            assert(self.queue_multiset().count(se) == 0);
                        }
                    },
                }
            },
        }
    }
}

} // verus!
