//! The Poisson mining process.

use crate::connection::node_is_connected;
use crate::event::BlockMiningProcess;
use crate::event::Event;
use crate::event::GenerateBlockWithoutTxEvent;
use crate::network::BitcoinNetwork;
use crate::network::queue_only_grows;
use crate::network::topology_unchanged;
use crate::randomness::RandomnessSource;
use crate::scheduled_event::ScheduledEvent;
use crate::send::protocol_state_unchanged;
use crate::simulator::Simulator;
use crate::simulator::fire_time_of;
use vstd::prelude::*;

verus! {

impl BitcoinNetwork {
    /// One mining tick: the block creation itself fires immediately
    /// (at the current instant, after everything already scheduled
    /// for it), and the next tick is drawn from the exponential
    /// distribution with the miner's mean interval. A tick at a node
    /// without hash power schedules no further ticks.
    pub fn mine_new_block<R: RandomnessSource>(
        &mut self,
        simulator: &mut Simulator,
        rand: &mut R,
        miner: usize,
    )
        requires
            old(self).wf(),
            old(simulator).wf(),
            old(simulator).inserted_events + 2 <= u64::MAX,
            miner < old(self).ecs.num_of_nodes,
        ensures
            final(self).wf(),
            final(simulator).wf(),
            final(simulator).simulation_time == old(simulator).simulation_time,
            queue_only_grows(old(simulator).queue_multiset(), final(simulator).queue_multiset()),
            *final(self) == *old(self),
            ({
                let gen = ScheduledEvent {
                    event: Event::GenerateBlockWithoutTx(GenerateBlockWithoutTxEvent { node: miner }),
                    time: fire_time_of(old(simulator).simulation_time, 0),
                    number: old(simulator).inserted_events,
                };
                match old(self).ecs.hash_power@[miner as int] {
                    Some(h) => {
                        &&& final(simulator).inserted_events == old(simulator).inserted_events + 2
                        &&& exists|delay: u64|
                            final(simulator).queue_multiset() == old(
                                simulator,
                            ).queue_multiset().insert(gen).insert(
                                ScheduledEvent {
                                    event: Event::BlockMining(BlockMiningProcess { miner }),
                                    time: fire_time_of(old(simulator).simulation_time, delay),
                                    number: (old(simulator).inserted_events + 1) as u64,
                                },
                            )
                    },
                    None => {
                        &&& final(simulator).inserted_events == old(simulator).inserted_events + 1
                        &&& final(simulator).queue_multiset() == old(
                            simulator,
                        ).queue_multiset().insert(gen)
                    },
                }
            }),
    {
        let generate_block_event = Event::GenerateBlockWithoutTx(
            GenerateBlockWithoutTxEvent::new(miner),
        );
        simulator.put_event(generate_block_event, 0);

        match self.ecs.hash_power[miner] {
            None => {},
            Some(own_hash_power) => {
                let interval = self.resource.config.average_block_mining_interval;
                let total = self.resource.total_hash_power;
                proof {
                    assert((total as int) * (interval as int) < 0x100000000000000000000000000000000)
                        by (nonlinear_arith)
                        requires
                            total <= 0xffffffffffffffffu64,
                            interval <= 0xffffffffffffffffu64,
                    ;
                }
                let mean128: u128 = (total as u128) * (interval as u128) / (own_hash_power
                    as u128);
                let average_time_between_generation: u64 = if mean128 > (u64::MAX as u128) {
                    u64::MAX
                } else {
                    mean128 as u64
                };
                let time_to_next_generation = rand.exponential_delay(
                    average_time_between_generation,
                );
                let block_mining_process = BlockMiningProcess::new(miner);
                simulator.put_event(
                    Event::BlockMining(block_mining_process),
                    time_to_next_generation,
                );
            },
        }
    }

    /// Dispatch of a mining tick: ticks at disconnected nodes are
    /// dropped.
    pub fn block_mining<R: RandomnessSource>(
        &mut self,
        simulator: &mut Simulator,
        rand: &mut R,
        mining_event: &BlockMiningProcess,
    )
        requires
            old(self).wf(),
            old(simulator).wf(),
            old(self).has_room(*old(simulator)),
        ensures
            final(self).wf(),
            final(simulator).wf(),
            final(simulator).simulation_time == old(simulator).simulation_time,
            queue_only_grows(old(simulator).queue_multiset(), final(simulator).queue_multiset()),
            *final(self) == *old(self),
            final(simulator).inserted_events >= old(simulator).inserted_events,
            final(self).resource.blocks@ == old(self).resource.blocks@,
            topology_unchanged(*old(self), *final(self)),
            protocol_state_unchanged(*old(self), *final(self)),
            !(mining_event.miner < old(self).ecs.num_of_nodes && old(
                self,
            ).ecs.is_connected@[mining_event.miner as int]) ==> final(simulator).event_queue@
                == old(simulator).event_queue@,
            (mining_event.miner < old(self).ecs.num_of_nodes && old(
                self,
            ).ecs.is_connected@[mining_event.miner as int]) ==> ({
                let gen = ScheduledEvent {
                    event: Event::GenerateBlockWithoutTx(
                        GenerateBlockWithoutTxEvent { node: mining_event.miner },
                    ),
                    time: fire_time_of(old(simulator).simulation_time, 0),
                    number: old(simulator).inserted_events,
                };
                match old(self).ecs.hash_power@[mining_event.miner as int] {
                    Some(h) => {
                        &&& final(simulator).inserted_events == old(simulator).inserted_events + 2
                        &&& exists|delay: u64|
                            final(simulator).queue_multiset() == old(
                                simulator,
                            ).queue_multiset().insert(gen).insert(
                                ScheduledEvent {
                                    event: Event::BlockMining(
                                        BlockMiningProcess { miner: mining_event.miner },
                                    ),
                                    time: fire_time_of(old(simulator).simulation_time, delay),
                                    number: (old(simulator).inserted_events + 1) as u64,
                                },
                            )
                    },
                    None => {
                        &&& final(simulator).inserted_events == old(simulator).inserted_events + 1
                        &&& final(simulator).queue_multiset() == old(
                            simulator,
                        ).queue_multiset().insert(gen)
                    },
                }
            }),
    {
        let miner = mining_event.miner;
        if !node_is_connected(&self.ecs.is_connected, miner) {
            return ;
        }
        self.mine_new_block(simulator, rand, miner);
    }
}

} // verus!
