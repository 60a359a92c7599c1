//! Handlers for outgoing gossip messages.

use crate::connection::node_is_connected;
use crate::event::Event;
use crate::event::ReceiveEvent;
use crate::event::SendEvent;
use crate::link::remaining_time_to_load;
use crate::message::MessageType;
use crate::network::BitcoinNetwork;
use crate::network::queue_only_grows;
use crate::network::topology_unchanged;
use crate::randomness::RandomnessSource;
use crate::scheduled_event::ScheduledEvent;
use crate::simulator::Simulator;
use crate::simulator::fire_time_of;
use vstd::prelude::*;

verus! {

/// How many entries of a neighbor list differ from `skip`: the number
/// of targets one inventory announcement fans out to.
pub open spec fn count_targets(ns: Seq<usize>, skip: usize) -> nat
    decreases ns.len(),
{
    if ns.len() == 0 {
        0
    } else {
        count_targets(ns.drop_last(), skip) + (if ns.last() != skip {
            1nat
        } else {
            0nat
        })
    }
}

/// Per-node protocol state (trees, seen-sets, consensus, downlinks)
/// is untouched; only uplinks and the queue may change.
pub open spec fn protocol_state_unchanged(pre: BitcoinNetwork, post: BitcoinNetwork) -> bool {
    &&& post.ecs.local_block_tree@ == pre.ecs.local_block_tree@
    &&& post.ecs.already_seen_blocks@ == pre.ecs.already_seen_blocks@
    &&& post.ecs.consensus_algorithm@ == pre.ecs.consensus_algorithm@
    &&& post.ecs.downlink@ == pre.ecs.downlink@
}

impl BitcoinNetwork {
    /// Bills the sender's uplink for the message and schedules its
    /// arrival at `to` after the upload plus a sampled country-pair
    /// latency.
    pub(crate) fn simulate_upload<R: RandomnessSource>(
        &mut self,
        simulator: &mut Simulator,
        rand: &mut R,
        to: usize,
        send_event: &SendEvent,
    )
        requires
            old(self).wf(),
            old(simulator).wf(),
            old(simulator).inserted_events < u64::MAX,
            send_event.node < old(self).ecs.num_of_nodes,
            to < old(self).ecs.num_of_nodes,
            send_event.block_index < old(self).resource.blocks@.len(),
        ensures
            final(self).wf(),
            final(simulator).wf(),
            final(simulator).simulation_time == old(simulator).simulation_time,
            queue_only_grows(old(simulator).queue_multiset(), final(simulator).queue_multiset()),
            final(simulator).inserted_events == old(simulator).inserted_events + 1,
            final(self).resource.blocks@ == old(self).resource.blocks@,
            topology_unchanged(*old(self), *final(self)),
            protocol_state_unchanged(*old(self), *final(self)),
            forall|m: int|
                0 <= m < old(self).ecs.num_of_nodes && m != send_event.node ==> (
                #[trigger] final(self).ecs.uplink@[m]) == old(self).ecs.uplink@[m],
            final(self).ecs.uplink@[send_event.node as int].link.bandwidth == old(
                self,
            ).ecs.uplink@[send_event.node as int].link.bandwidth,
            final(self).ecs.uplink@[send_event.node as int].link.latest_loaded_time_done >= old(
                self,
            ).ecs.uplink@[send_event.node as int].link.latest_loaded_time_done,
            exists|delay: u64|
                final(simulator).queue_multiset() == old(simulator).queue_multiset().insert(
                    ScheduledEvent {
                        event: Event::Receive(
                            ReceiveEvent {
                                block_index: send_event.block_index,
                                from: send_event.node,
                                node: to,
                                msg_type: send_event.msg_type,
                            },
                        ),
                        time: fire_time_of(old(simulator).simulation_time, delay),
                        number: old(simulator).inserted_events,
                    },
                ),
    {
        let node = send_event.node;
        let index = send_event.block_index;
        let forward_event = Event::Receive(
            ReceiveEvent::new(index, node, to, send_event.msg_type),
        );
        let size = send_event.msg_type.get_size(index, &self.resource.blocks);
        let mut ul = self.ecs.uplink[node];
        let upload_delay = remaining_time_to_load(&mut ul.link, simulator, size);
        self.ecs.uplink[node] = ul;
        let delivery_delay = rand.latency_delay(self.ecs.country[node], self.ecs.country[to]);
        let total_delay: u64 = if delivery_delay > u64::MAX - upload_delay {
            u64::MAX
        } else {
            upload_delay + delivery_delay
        };
        simulator.put_event(forward_event, total_delay);
    }

    /// Announces the block to every neighbor except the one the
    /// announcement came from, billing the uplink once per target. A
    /// node whose neighbors all equal the sender announces nothing.
    pub(crate) fn send_inv_to_neighbors<R: RandomnessSource>(
        &mut self,
        simulator: &mut Simulator,
        rand: &mut R,
        send_event: &SendEvent,
    )
        requires
            old(self).wf(),
            old(simulator).wf(),
            old(simulator).inserted_events + old(
                self,
            ).ecs.neighbors@[send_event.node as int].0@.len() <= u64::MAX,
            send_event.node < old(self).ecs.num_of_nodes,
            send_event.block_index < old(self).resource.blocks@.len(),
        ensures
            final(self).wf(),
            final(simulator).wf(),
            final(simulator).simulation_time == old(simulator).simulation_time,
            queue_only_grows(old(simulator).queue_multiset(), final(simulator).queue_multiset()),
            final(self).resource.blocks@ == old(self).resource.blocks@,
            topology_unchanged(*old(self), *final(self)),
            protocol_state_unchanged(*old(self), *final(self)),
            final(simulator).inserted_events == old(simulator).inserted_events + count_targets(
                old(self).ecs.neighbors@[send_event.node as int].0@,
                send_event.from,
            ),
            forall|se: ScheduledEvent|
                final(simulator).queue_multiset().count(se) > old(
                    simulator,
                ).queue_multiset().count(se) ==> (match se.event {
                    Event::Receive(rev) => {
                        &&& rev.from == send_event.node
                        &&& rev.block_index == send_event.block_index
                        &&& rev.msg_type == send_event.msg_type
                        &&& rev.node != send_event.from
                        &&& old(self).ecs.neighbors@[send_event.node as int].0@.contains(rev.node)
                    },
                    _ => false,
                }),
            (forall|k: int|
                0 <= k < old(self).ecs.neighbors@[send_event.node as int].0@.len() ==> (
                #[trigger] old(self).ecs.neighbors@[send_event.node as int].0@[k])
                    == send_event.from) ==> {
                &&& *final(self) == *old(self)
                &&& final(simulator).event_queue@ == old(simulator).event_queue@
            },
    {
        let node = send_event.node;
        let neighbor_count = self.ecs.neighbors[node].0.len();
        let mut k: usize = 0;
        while k < neighbor_count
            invariant
                self.wf(),
                simulator.wf(),
                simulator.simulation_time == old(simulator).simulation_time,
                self.resource.blocks@ == old(self).resource.blocks@,
                topology_unchanged(*old(self), *self),
                protocol_state_unchanged(*old(self), *self),
                send_event.node < self.ecs.num_of_nodes,
                node == send_event.node,
                send_event.block_index < self.resource.blocks@.len(),
                neighbor_count == self.ecs.neighbors@[node as int].0@.len(),
                k <= neighbor_count,
                simulator.inserted_events == old(simulator).inserted_events + count_targets(
                    old(self).ecs.neighbors@[send_event.node as int].0@.subrange(0, k as int),
                    send_event.from,
                ),
                count_targets(
                    old(self).ecs.neighbors@[send_event.node as int].0@.subrange(0, k as int),
                    send_event.from,
                ) <= k,
                old(simulator).inserted_events + neighbor_count <= u64::MAX,
                queue_only_grows(old(simulator).queue_multiset(), simulator.queue_multiset()),
                forall|se: ScheduledEvent|
                    simulator.queue_multiset().count(se) > old(
                        simulator,
                    ).queue_multiset().count(se) ==> (match se.event {
                        Event::Receive(rev) => {
                            &&& rev.from == send_event.node
                            &&& rev.block_index == send_event.block_index
                            &&& rev.msg_type == send_event.msg_type
                            &&& rev.node != send_event.from
                            &&& old(self).ecs.neighbors@[send_event.node as int].0@.contains(
                                rev.node,
                            )
                        },
                        _ => false,
                    }),
                (forall|j: int|
                    0 <= j < old(self).ecs.neighbors@[send_event.node as int].0@.len() ==> (
                    #[trigger] old(self).ecs.neighbors@[send_event.node as int].0@[j])
                        == send_event.from) ==> (*self == *old(self) && simulator.event_queue@
                    == old(simulator).event_queue@),
            decreases neighbor_count - k,
        {
            let neighbor = self.ecs.neighbors[node].0[k];
            proof {
                let all = old(self).ecs.neighbors@[send_event.node as int].0@;
                assert(all.subrange(0, k + 1).drop_last() =~= all.subrange(0, k as int));
                assert(all.subrange(0, k + 1).last() == all[k as int]);
            }
            if neighbor != send_event.from {
                let ghost qm_pre = simulator.queue_multiset();
                self.simulate_upload(simulator, rand, neighbor, send_event);
                proof {
                    let se_new = choose|delay: u64|
                        simulator.queue_multiset() == qm_pre.insert(
                            ScheduledEvent {
                                event: Event::Receive(
                                    ReceiveEvent {
                                        block_index: send_event.block_index,
                                        from: send_event.node,
                                        node: neighbor,
                                        msg_type: send_event.msg_type,
                                    },
                                ),
                                time: fire_time_of(old(simulator).simulation_time, delay),
                                number: (simulator.inserted_events - 1) as u64,
                            },
                        );
                    assert(old(self).ecs.neighbors@[send_event.node as int].0@[k as int]
                        == neighbor);
                    assert(old(self).ecs.neighbors@[send_event.node as int].0@.contains(neighbor));
                }
            }
            k = k + 1;
        }
        proof {
            let all = old(self).ecs.neighbors@[send_event.node as int].0@;
            assert(all.subrange(0, all.len() as int) =~= all);
        }
    }

    /// Dispatches a send event: inventory goes to all neighbors but
    /// the predecessor; payloads and requests go back to the single
    /// requester. Sends at disconnected nodes, about unknown blocks,
    /// or to out-of-range targets are dropped.
    pub fn send<R: RandomnessSource>(
        &mut self,
        simulator: &mut Simulator,
        rand: &mut R,
        send_event: &SendEvent,
    )
        requires
            old(self).wf(),
            old(simulator).wf(),
            old(self).has_room(*old(simulator)),
        ensures
            final(self).wf(),
            final(simulator).wf(),
            final(simulator).simulation_time == old(simulator).simulation_time,
            queue_only_grows(old(simulator).queue_multiset(), final(simulator).queue_multiset()),
            final(self).resource.blocks@ == old(self).resource.blocks@,
            final(simulator).inserted_events >= old(simulator).inserted_events,
            topology_unchanged(*old(self), *final(self)),
            protocol_state_unchanged(*old(self), *final(self)),
            !(send_event.node < old(self).ecs.num_of_nodes && old(
                self,
            ).ecs.is_connected@[send_event.node as int] && send_event.block_index < old(
                self,
            ).resource.blocks@.len()) ==> {
                &&& *final(self) == *old(self)
                &&& final(simulator).event_queue@ == old(simulator).event_queue@
            },
            (send_event.node < old(self).ecs.num_of_nodes && old(
                self,
            ).ecs.is_connected@[send_event.node as int] && send_event.block_index < old(
                self,
            ).resource.blocks@.len()) ==> match send_event.msg_type {
                MessageType::InvMessage(_) => {
                    &&& final(simulator).inserted_events == old(simulator).inserted_events
                        + count_targets(
                        old(self).ecs.neighbors@[send_event.node as int].0@,
                        send_event.from,
                    )
                    &&& forall|se: ScheduledEvent|
                        final(simulator).queue_multiset().count(se) > old(
                            simulator,
                        ).queue_multiset().count(se) ==> (match se.event {
                            Event::Receive(rev) => {
                                &&& rev.from == send_event.node
                                &&& rev.block_index == send_event.block_index
                                &&& rev.msg_type == send_event.msg_type
                                &&& rev.node != send_event.from
                                &&& old(
                                    self,
                                ).ecs.neighbors@[send_event.node as int].0@.contains(rev.node)
                            },
                            _ => false,
                        })
                },
                MessageType::DataMessage(_) | MessageType::RequestDataMessage(_) => {
                    if send_event.from < old(self).ecs.num_of_nodes {
                        &&& final(simulator).inserted_events == old(simulator).inserted_events + 1
                        &&& exists|delay: u64|
                            final(simulator).queue_multiset() == old(
                                simulator,
                            ).queue_multiset().insert(
                                ScheduledEvent {
                                    event: Event::Receive(
                                        ReceiveEvent {
                                            block_index: send_event.block_index,
                                            from: send_event.node,
                                            node: send_event.from,
                                            msg_type: send_event.msg_type,
                                        },
                                    ),
                                    time: fire_time_of(old(simulator).simulation_time, delay),
                                    number: old(simulator).inserted_events,
                                },
                            )
                    } else {
                        &&& *final(self) == *old(self)
                        &&& final(simulator).event_queue@ == old(simulator).event_queue@
                    }
                },
                MessageType::VoteMessage => {
                    &&& *final(self) == *old(self)
                    &&& final(simulator).event_queue@ == old(simulator).event_queue@
                },
            },
    {
        let node = send_event.node;
        if !node_is_connected(&self.ecs.is_connected, node) {
            return ;
        }
        if send_event.block_index >= self.resource.blocks.len() {
            return ;
        }
        match send_event.msg_type {
            MessageType::InvMessage(_) => {
                self.send_inv_to_neighbors(simulator, rand, send_event);
            },
            MessageType::DataMessage(_) | MessageType::RequestDataMessage(_) => {
                if send_event.from < self.ecs.num_of_nodes {
                    self.simulate_upload(simulator, rand, send_event.from, send_event);
                }
            },
            MessageType::VoteMessage => {},
        }
    }
}

} // verus!
