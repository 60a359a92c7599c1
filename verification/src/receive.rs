//! Handlers for arriving gossip messages.

use crate::connection::node_is_connected;
use crate::event::Event;
use crate::event::ReceiveEvent;
use crate::event::SendEvent;
use crate::link::link_finish;
use crate::link::remaining_time_to_load;
use crate::message::DataType;
use crate::message::MessageType;
use crate::message::spec_message_size;
use crate::network::BitcoinNetwork;
use crate::network::queue_only_grows;
use crate::network::topology_unchanged;
use crate::scheduled_event::ScheduledEvent;
use crate::simulator::Simulator;
use crate::simulator::fire_time_of;
use crate::local_block_tree::chain_present;
use crate::local_block_tree::is_descendant;
use vstd::prelude::*;

verus! {

broadcast use vstd::std_specs::hash::group_hash_axioms;

/// The seen-set of a node after an inventory announcement for `b`
/// arrives: unchanged if the block was seen in any form, otherwise
/// recorded as announced-but-not-downloaded.
pub open spec fn inv_seen_after(seen: Map<usize, bool>, b: usize) -> Map<usize, bool> {
    if seen.contains_key(b) {
        seen
    } else {
        seen.insert(b, false)
    }
}

/// How many payload requests an inventory announcement for `b`
/// provokes at a node whose seen-set is `seen`: one for a first
/// announcement, none for a repeat.
pub open spec fn inv_requests(seen: Map<usize, bool>, b: usize) -> nat {
    if seen.contains_key(b) {
        0
    } else {
        1
    }
}

/// Every per-node state except `node`'s is untouched.
pub open spec fn other_nodes_unchanged(
    pre: BitcoinNetwork,
    post: BitcoinNetwork,
    node: usize,
) -> bool {
    &&& forall|m: int|
        0 <= m < pre.ecs.num_of_nodes && m != node ==> (#[trigger] post.ecs.local_block_tree@[m])
            == pre.ecs.local_block_tree@[m]
    &&& forall|m: int|
        0 <= m < pre.ecs.num_of_nodes && m != node ==> (#[trigger] post.ecs.already_seen_blocks@[m])
            == pre.ecs.already_seen_blocks@[m]
    &&& forall|m: int|
        0 <= m < pre.ecs.num_of_nodes && m != node ==> (#[trigger] post.ecs.consensus_algorithm@[m])
            == pre.ecs.consensus_algorithm@[m]
    &&& forall|m: int|
        0 <= m < pre.ecs.num_of_nodes && m != node ==> (#[trigger] post.ecs.downlink@[m])
            == pre.ecs.downlink@[m]
    &&& forall|m: int|
        0 <= m < pre.ecs.num_of_nodes ==> (#[trigger] post.ecs.uplink@[m]) == pre.ecs.uplink@[m]
}

/// The queue gained an inventory relay for `block`: some entry whose
/// multiplicity grew is exactly the download-delayed send of `block`
/// from the receiving node onward.
pub open spec fn has_inv_relay(
    sim_pre: Simulator,
    sim_post: Simulator,
    block: usize,
    receive_event: ReceiveEvent,
) -> bool {
    exists|se: ScheduledEvent|
        sim_post.queue_multiset().count(se) > sim_pre.queue_multiset().count(se) && se.event
            == Event::Send(
            SendEvent {
                block_index: block,
                from: receive_event.from,
                node: receive_event.node,
                msg_type: MessageType::InvMessage(DataType::IsBlock),
            },
        )
}

/// The scheduled event a download-delayed send turns into.
pub open spec fn download_send_event(
    pre: BitcoinNetwork,
    sim: Simulator,
    propagate_block: usize,
    propagate_msg_type: MessageType,
    receive_event: ReceiveEvent,
) -> ScheduledEvent {
    let node = receive_event.node;
    let dlink = pre.ecs.downlink@[node as int].link;
    let size = spec_message_size(
        receive_event.msg_type,
        pre.resource.blocks@,
        receive_event.block_index as int,
    );
    let finish = link_finish(dlink, sim.simulation_time, size);
    ScheduledEvent {
        event: Event::Send(
            SendEvent {
                block_index: propagate_block,
                from: receive_event.from,
                node: receive_event.node,
                msg_type: propagate_msg_type,
            },
        ),
        time: fire_time_of(sim.simulation_time, (finish - sim.simulation_time) as u64),
        number: sim.inserted_events,
    }
}

/// A recorded inventory relay survives further scheduling: multiset
/// counts only ever grow under the handlers.
proof fn lemma_inv_relay_persists(
    sim_base: Simulator,
    sim_mid: Simulator,
    sim_post: Simulator,
    block: usize,
    receive_event: ReceiveEvent,
)
    requires
        has_inv_relay(sim_base, sim_mid, block, receive_event),
        queue_only_grows(sim_mid.queue_multiset(), sim_post.queue_multiset()),
    ensures
        has_inv_relay(sim_base, sim_post, block, receive_event),
{
    let se = choose|se: ScheduledEvent|
        sim_mid.queue_multiset().count(se) > sim_base.queue_multiset().count(se) && se.event
            == Event::Send(
            SendEvent {
                block_index: block,
                from: receive_event.from,
                node: receive_event.node,
                msg_type: MessageType::InvMessage(DataType::IsBlock),
            },
        );
    assert(sim_post.queue_multiset().count(se) > sim_base.queue_multiset().count(se));
}

/// A relay recorded against an intermediate queue also counts against
/// an earlier queue that the intermediate one only grew from.
proof fn lemma_inv_relay_new(
    sim_base: Simulator,
    sim_mid: Simulator,
    sim_post: Simulator,
    block: usize,
    receive_event: ReceiveEvent,
)
    requires
        has_inv_relay(sim_mid, sim_post, block, receive_event),
        queue_only_grows(sim_base.queue_multiset(), sim_mid.queue_multiset()),
    ensures
        has_inv_relay(sim_base, sim_post, block, receive_event),
{
    let se = choose|se: ScheduledEvent|
        sim_post.queue_multiset().count(se) > sim_mid.queue_multiset().count(se) && se.event
            == Event::Send(
            SendEvent {
                block_index: block,
                from: receive_event.from,
                node: receive_event.node,
                msg_type: MessageType::InvMessage(DataType::IsBlock),
            },
        );
    assert(sim_post.queue_multiset().count(se) > sim_base.queue_multiset().count(se));
}

impl BitcoinNetwork {
    /// Bills the receiver's downlink for the arrived message and
    /// schedules the follow-up send after the download finishes.
    fn simulate_download(
        &mut self,
        propagate_block: usize,
        simulator: &mut Simulator,
        propagate_msg_type: MessageType,
        receive_event: &ReceiveEvent,
    )
        requires
            old(self).wf(),
            old(simulator).wf(),
            old(simulator).inserted_events < u64::MAX,
            receive_event.node < old(self).ecs.num_of_nodes,
            receive_event.block_index < old(self).resource.blocks@.len(),
        ensures
            final(self).wf(),
            final(simulator).wf(),
            final(simulator).simulation_time == old(simulator).simulation_time,
            queue_only_grows(old(simulator).queue_multiset(), final(simulator).queue_multiset()),
            final(simulator).inserted_events == old(simulator).inserted_events + 1,
            final(simulator).queue_multiset() == old(simulator).queue_multiset().insert(
                download_send_event(
                    *old(self),
                    *old(simulator),
                    propagate_block,
                    propagate_msg_type,
                    *receive_event,
                ),
            ),
            final(self).resource.blocks@ == old(self).resource.blocks@,
            topology_unchanged(*old(self), *final(self)),
            other_nodes_unchanged(*old(self), *final(self), receive_event.node),
            forall|m: int|
                0 <= m < old(self).ecs.num_of_nodes ==> (
                #[trigger] final(self).ecs.local_block_tree@[m]) == old(self).ecs.local_block_tree@[m],
            forall|m: int|
                0 <= m < old(self).ecs.num_of_nodes ==> (
                #[trigger] final(self).ecs.already_seen_blocks@[m]) == old(self).ecs.already_seen_blocks@[m],
            forall|m: int|
                0 <= m < old(self).ecs.num_of_nodes ==> (
                #[trigger] final(self).ecs.consensus_algorithm@[m]) == old(self).ecs.consensus_algorithm@[m],
            final(self).ecs.downlink@[receive_event.node as int].link.bandwidth == old(self).ecs.downlink@[receive_event.node as int].link.bandwidth,
            final(self).ecs.downlink@[receive_event.node as int].link.latest_loaded_time_done
                >= old(self).ecs.downlink@[receive_event.node as int].link.latest_loaded_time_done,
    {
        let node = receive_event.node;
        let size = receive_event.msg_type.get_size(receive_event.block_index, &self.resource.blocks);
        let mut dl = self.ecs.downlink[node];
        let download_delay = remaining_time_to_load(&mut dl.link, simulator, size);
        self.ecs.downlink[node] = dl;
        let propagate_event = Event::Send(
            SendEvent::new(
                propagate_block,
                receive_event.from,
                receive_event.node,
                propagate_msg_type,
            ),
        );
        simulator.put_event(propagate_event, download_delay);
    }

    /// Reaction to an inventory announcement: a block never seen in
    /// any form is recorded and its payload requested from the
    /// announcer; an announcement for anything already seen is
    /// dropped, so repeated announcements provoke at most one
    /// request.
    pub fn process_inv_message(&mut self, simulator: &mut Simulator, receive_event: &ReceiveEvent)
        requires
            old(self).wf(),
            old(simulator).wf(),
            old(simulator).inserted_events < u64::MAX,
            receive_event.node < old(self).ecs.num_of_nodes,
            receive_event.block_index < old(self).resource.blocks@.len(),
        ensures
            final(self).wf(),
            final(simulator).wf(),
            final(simulator).simulation_time == old(simulator).simulation_time,
            queue_only_grows(old(simulator).queue_multiset(), final(simulator).queue_multiset()),
            final(self).resource.blocks@ == old(self).resource.blocks@,
            topology_unchanged(*old(self), *final(self)),
            other_nodes_unchanged(*old(self), *final(self), receive_event.node),
            (final(self).ecs.already_seen_blocks@[receive_event.node as int].0)@ == inv_seen_after(
                (old(self).ecs.already_seen_blocks@[receive_event.node as int].0)@,
                receive_event.block_index,
            ),
            final(self).ecs.local_block_tree@ == old(self).ecs.local_block_tree@,
            final(self).ecs.consensus_algorithm@ == old(self).ecs.consensus_algorithm@,
            final(simulator).inserted_events == old(simulator).inserted_events + inv_requests(
                (old(self).ecs.already_seen_blocks@[receive_event.node as int].0)@,
                receive_event.block_index,
            ),
            inv_requests(
                (old(self).ecs.already_seen_blocks@[receive_event.node as int].0)@,
                receive_event.block_index,
            ) == 0 ==> {
                &&& final(simulator).event_queue@ == old(simulator).event_queue@
                &&& *final(self) == *old(self)
            },
            inv_requests(
                (old(self).ecs.already_seen_blocks@[receive_event.node as int].0)@,
                receive_event.block_index,
            ) == 1 ==> final(simulator).queue_multiset() == old(simulator).queue_multiset().insert(
                download_send_event(
                    *old(self),
                    *old(simulator),
                    receive_event.block_index,
                    MessageType::RequestDataMessage(DataType::IsBlock),
                    *receive_event,
                ),
            ),
    {
        let node = receive_event.node;
        let already = self.ecs.already_seen_blocks[node].0.contains_key(
            &receive_event.block_index,
        );
        if !already {
            let ghost pre = *self;
            self.ecs.already_seen_blocks[node].0.insert(receive_event.block_index, false);
            proof {
                assert(self.ecs.already_seen_blocks@ =~= pre.ecs.already_seen_blocks@.update(
                    node as int,
                    self.ecs.already_seen_blocks@[node as int],
                ));
            }
            self.simulate_download(
                receive_event.block_index,
                simulator,
                MessageType::RequestDataMessage(DataType::IsBlock),
                receive_event,
            );
        }
    }

    /// Reaction to a payload request: served with a download-delayed
    /// data send when this node holds the payload, silently dropped
    /// otherwise.
    pub fn process_request_data_message(
        &mut self,
        simulator: &mut Simulator,
        receive_event: &ReceiveEvent,
    )
        requires
            old(self).wf(),
            old(simulator).wf(),
            old(simulator).inserted_events < u64::MAX,
            receive_event.node < old(self).ecs.num_of_nodes,
            receive_event.block_index < old(self).resource.blocks@.len(),
        ensures
            final(self).wf(),
            final(simulator).wf(),
            final(simulator).simulation_time == old(simulator).simulation_time,
            queue_only_grows(old(simulator).queue_multiset(), final(simulator).queue_multiset()),
            final(self).resource.blocks@ == old(self).resource.blocks@,
            topology_unchanged(*old(self), *final(self)),
            other_nodes_unchanged(*old(self), *final(self), receive_event.node),
            final(self).ecs.local_block_tree@ == old(self).ecs.local_block_tree@,
            final(self).ecs.consensus_algorithm@ == old(self).ecs.consensus_algorithm@,
            final(self).ecs.already_seen_blocks@ == old(self).ecs.already_seen_blocks@,
            ({
                let seen = (old(self).ecs.already_seen_blocks@[receive_event.node as int].0)@;
                let served = seen.contains_key(receive_event.block_index)
                    && seen[receive_event.block_index];
                if served {
                    &&& final(simulator).inserted_events == old(simulator).inserted_events + 1
                    &&& final(simulator).queue_multiset() == old(simulator).queue_multiset().insert(
                        download_send_event(
                            *old(self),
                            *old(simulator),
                            receive_event.block_index,
                            MessageType::DataMessage(DataType::IsBlock),
                            *receive_event,
                        ),
                    )
                } else {
                    &&& *final(self) == *old(self)
                    &&& final(simulator).event_queue@ == old(simulator).event_queue@
                    &&& final(simulator).inserted_events == old(simulator).inserted_events
                }
            }),
    {
        let node = receive_event.node;
        let serve = match self.ecs.already_seen_blocks[node].0.get(&receive_event.block_index) {
            Some(s) => *s,
            None => false,
        };
        if serve {
            self.simulate_download(
                receive_event.block_index,
                simulator,
                MessageType::DataMessage(DataType::IsBlock),
                receive_event,
            );
        }
    }

    /// Consensus reaction to one newly usable block, plus the
    /// download-delayed inventory relay for it.
    fn process_new_block(
        &mut self,
        block_index: usize,
        simulator: &mut Simulator,
        receive_event: &ReceiveEvent,
    )
        requires
            old(self).wf(),
            old(simulator).wf(),
            old(simulator).inserted_events + 2 <= u64::MAX,
            receive_event.node < old(self).ecs.num_of_nodes,
            receive_event.block_index < old(self).resource.blocks@.len(),
            block_index < old(self).resource.blocks@.len(),
        ensures
            final(self).wf(),
            final(simulator).wf(),
            final(simulator).simulation_time == old(simulator).simulation_time,
            queue_only_grows(old(simulator).queue_multiset(), final(simulator).queue_multiset()),
            old(simulator).inserted_events + 1 <= final(simulator).inserted_events <= old(simulator).inserted_events + 2,
            final(self).resource.blocks@ == old(self).resource.blocks@,
            topology_unchanged(*old(self), *final(self)),
            other_nodes_unchanged(*old(self), *final(self), receive_event.node),
            final(self).ecs.local_block_tree@ == old(self).ecs.local_block_tree@,
            final(self).ecs.already_seen_blocks@ == old(self).ecs.already_seen_blocks@,
            ({
                let pre_c = old(self).ecs.consensus_algorithm@[receive_event.node as int];
                let post_c = final(self).ecs.consensus_algorithm@[receive_event.node as int];
                let height = old(self).resource.blocks@[block_index as int].height;
                &&& post_c.node_index == pre_c.node_index
                &&& post_c.longest_chain_len >= pre_c.longest_chain_len
                &&& post_c.longest_chain_len >= height
                &&& (height > pre_c.longest_chain_len ==> post_c.current_main_chain_head_index
                    == block_index && post_c.longest_chain_len == height)
                &&& (height <= pre_c.longest_chain_len ==> post_c.longest_chain_len
                    == pre_c.longest_chain_len && post_c.current_main_chain_head_index
                    == pre_c.current_main_chain_head_index)
            }),
            forall|se: ScheduledEvent|
                final(simulator).queue_multiset().count(se) > old(
                    simulator,
                ).queue_multiset().count(se) ==> (match se.event {
                    Event::Send(s) => {
                        &&& s.node == receive_event.node
                        &&& s.from == receive_event.from
                        &&& s.msg_type matches MessageType::InvMessage(_)
                    },
                    Event::BlockConfirmation(c) => c.node_index == old(
                        self,
                    ).ecs.consensus_algorithm@[receive_event.node as int].node_index,
                    _ => false,
                }),
            exists|se: ScheduledEvent|
                final(simulator).queue_multiset().count(se) > old(
                    simulator,
                ).queue_multiset().count(se) && se.event == Event::Send(
                    SendEvent {
                        block_index,
                        from: receive_event.from,
                        node: receive_event.node,
                        msg_type: MessageType::InvMessage(DataType::IsBlock),
                    },
                ),
    {
        let node = receive_event.node;
        self.ecs.consensus_algorithm[node].new_incoming_block(
            block_index,
            &self.resource.blocks,
            &self.resource.config,
            &self.ecs.local_block_tree[node],
            simulator,
        );
        let ghost mid_self = *self;
        let ghost mid_sim = *simulator;
        self.simulate_download(
            block_index,
            simulator,
            MessageType::InvMessage(DataType::IsBlock),
            receive_event,
        );
        proof {
            let relay = download_send_event(
                mid_self,
                mid_sim,
                block_index,
                MessageType::InvMessage(DataType::IsBlock),
                *receive_event,
            );
            old(simulator).lemma_fresh_number_not_queued(relay);
            assert(simulator.queue_multiset().count(relay) > old(
                simulator,
            ).queue_multiset().count(relay));
        }
    }

    /// Reaction to an arriving block payload. A payload already in
    /// the local tree changes nothing. A new one is recorded; if its
    /// chain to genesis is complete, consensus sees it and every
    /// descendant the arrival connects (in ascending id order), each
    /// with an inventory relay; otherwise the missing parent is
    /// requested from the sender.
    pub fn process_data_message(&mut self, simulator: &mut Simulator, receive_event: &ReceiveEvent)
        requires
            old(self).wf(),
            old(simulator).wf(),
            old(simulator).inserted_events + 2 * old(self).resource.blocks@.len() + 3 <= u64::MAX,
            receive_event.node < old(self).ecs.num_of_nodes,
            receive_event.block_index < old(self).resource.blocks@.len(),
        ensures
            final(self).wf(),
            final(simulator).wf(),
            final(simulator).simulation_time == old(simulator).simulation_time,
            queue_only_grows(old(simulator).queue_multiset(), final(simulator).queue_multiset()),
            final(self).resource.blocks@ == old(self).resource.blocks@,
            final(simulator).inserted_events >= old(simulator).inserted_events,
            topology_unchanged(*old(self), *final(self)),
            other_nodes_unchanged(*old(self), *final(self), receive_event.node),
            old(self).ecs.local_block_tree@[receive_event.node as int]@.contains_key(
                receive_event.block_index,
            ) ==> {
                &&& *final(self) == *old(self)
                &&& final(simulator).event_queue@ == old(simulator).event_queue@
                &&& final(simulator).inserted_events == old(simulator).inserted_events
            },
            !old(self).ecs.local_block_tree@[receive_event.node as int]@.contains_key(
                receive_event.block_index,
            ) ==> {
                let pre_tree = old(self).ecs.local_block_tree@[receive_event.node as int]@;
                let post_tree = final(self).ecs.local_block_tree@[receive_event.node as int]@;
                let pre_seen = (old(self).ecs.already_seen_blocks@[receive_event.node as int].0)@;
                let post_seen = (final(self).ecs.already_seen_blocks@[receive_event.node as int].0)@;
                &&& post_tree.dom() == pre_tree.dom().insert(receive_event.block_index)
                &&& post_seen == pre_seen.insert(receive_event.block_index, true)
                &&& (chain_present(
                    pre_tree.dom().insert(receive_event.block_index),
                    old(self).resource.blocks@,
                    receive_event.block_index,
                ) ==> {
                    &&& final(self).ecs.consensus_algorithm@[receive_event.node as int].longest_chain_len >= old(self).resource.blocks@[receive_event.block_index as int].height
                    &&& has_inv_relay(
                        *old(simulator),
                        *final(simulator),
                        receive_event.block_index,
                        *receive_event,
                    )
                    &&& forall|d: usize|
                        #[trigger] is_descendant(
                            pre_tree.dom().insert(receive_event.block_index),
                            old(self).resource.blocks@,
                            d,
                            receive_event.block_index,
                        ) ==> has_inv_relay(*old(simulator), *final(simulator), d, *receive_event)
                })
                &&& (!chain_present(
                    pre_tree.dom().insert(receive_event.block_index),
                    old(self).resource.blocks@,
                    receive_event.block_index,
                ) && receive_event.block_index != 0 ==> {
                    &&& final(simulator).inserted_events == old(simulator).inserted_events + 1
                    &&& final(simulator).queue_multiset() == old(
                        simulator,
                    ).queue_multiset().insert(
                        download_send_event(
                            *old(self),
                            *old(simulator),
                            old(self).resource.blocks@[receive_event.block_index as int].parents@[0],
                            MessageType::RequestDataMessage(DataType::IsBlock),
                            *receive_event,
                        ),
                    )
                })
            },
            final(self).ecs.consensus_algorithm@[receive_event.node as int].longest_chain_len
                >= old(self).ecs.consensus_algorithm@[receive_event.node as int].longest_chain_len,
            final(self).ecs.consensus_algorithm@[receive_event.node as int].node_index == old(self).ecs.consensus_algorithm@[receive_event.node as int].node_index,
            final(self).ecs.local_block_tree@[receive_event.node as int]@.contains_key(
                receive_event.block_index,
            ),
            forall|se: ScheduledEvent|
                final(simulator).queue_multiset().count(se) > old(
                    simulator,
                ).queue_multiset().count(se) ==> (match se.event {
                    Event::Send(s) => s.node == receive_event.node && s.from
                        == receive_event.from,
                    Event::BlockConfirmation(c) => c.node_index == old(
                        self,
                    ).ecs.consensus_algorithm@[receive_event.node as int].node_index,
                    _ => false,
                }),
    {
        let node = receive_event.node;
        let block_index = receive_event.block_index;
        if self.ecs.local_block_tree[node].contains(block_index) {
            return ;
        }
        self.ecs.local_block_tree[node].add(block_index, &self.resource.blocks);
        self.ecs.already_seen_blocks[node].0.insert(block_index, true);
        proof {
            assert(self.ecs.local_block_tree@ =~= old(self).ecs.local_block_tree@.update(node as int, self.ecs.local_block_tree@[node as int]));
            assert(self.ecs.already_seen_blocks@ =~= old(self).ecs.already_seen_blocks@.update(
                node as int,
                self.ecs.already_seen_blocks@[node as int],
            ));
        }
        let connected = match self.ecs.local_block_tree[node].local_block_dag.get(&block_index) {
            Some(lb) => lb.is_connected_to_genesis,
            None => false,
        };
        if connected {
            let ghost mid = *self;
            let ghost sim_mid = *simulator;
            self.process_new_block(block_index, simulator, receive_event);
            proof {
                lemma_inv_relay_new(sim_mid, sim_mid, *simulator, block_index, *receive_event);
            }
            let successors = self.ecs.local_block_tree[node].collect_descendants(
                block_index,
                &self.resource.blocks,
            );
            let ghost nblocks = self.resource.blocks@.len() as int;
            let mut k: usize = 0;
            while k < successors.len()
                invariant
                    self.wf(),
                    simulator.wf(),
                    simulator.simulation_time == sim_mid.simulation_time,
                    self.resource.blocks@ == mid.resource.blocks@,
                    topology_unchanged(mid, *self),
                    other_nodes_unchanged(mid, *self, receive_event.node),
                    self.ecs.local_block_tree@ == mid.ecs.local_block_tree@,
                    self.ecs.already_seen_blocks@ == mid.ecs.already_seen_blocks@,
                    receive_event.node < self.ecs.num_of_nodes,
                    receive_event.block_index < self.resource.blocks@.len(),
                    k <= successors@.len(),
                    successors@.len() + block_index < nblocks,
                    nblocks == self.resource.blocks@.len(),
                    forall|j: int| 0 <= j < successors@.len() ==> (#[trigger] successors@[j])
                        < nblocks,
                    simulator.inserted_events <= sim_mid.inserted_events + 2 + 2 * k,
                    simulator.inserted_events >= sim_mid.inserted_events,
                    queue_only_grows(sim_mid.queue_multiset(), simulator.queue_multiset()),
                    has_inv_relay(sim_mid, *simulator, block_index, *receive_event),
                    forall|j: int|
                        0 <= j < k ==> has_inv_relay(
                            sim_mid,
                            *simulator,
                            #[trigger] successors@[j],
                            *receive_event,
                        ),
                    sim_mid.inserted_events + 2 * nblocks + 1 <= u64::MAX,
                    self.ecs.consensus_algorithm@[receive_event.node as int].longest_chain_len
                        >= self.resource.blocks@[block_index as int].height,
                    self.ecs.consensus_algorithm@[receive_event.node as int].node_index
                        == mid.ecs.consensus_algorithm@[receive_event.node as int].node_index,
                    self.ecs.consensus_algorithm@[receive_event.node as int].longest_chain_len
                        >= mid.ecs.consensus_algorithm@[receive_event.node as int].longest_chain_len,
                    forall|se: ScheduledEvent|
                        simulator.queue_multiset().count(se) > sim_mid.queue_multiset().count(se)
                            ==> (match se.event {
                            Event::Send(s) => s.node == receive_event.node && s.from
                                == receive_event.from,
                            Event::BlockConfirmation(c) => c.node_index
                                == mid.ecs.consensus_algorithm@[receive_event.node as int].node_index,
                            _ => false,
                        }),
                decreases successors@.len() - k,
            {
                proof {
                    assert(k + 1 < nblocks);
                    assert(simulator.inserted_events + 2 <= u64::MAX);
                }
                let ghost sim_pre_call = *simulator;
                self.process_new_block(successors[k], simulator, receive_event);
                proof {
                    lemma_inv_relay_persists(
                        sim_mid,
                        sim_pre_call,
                        *simulator,
                        block_index,
                        *receive_event,
                    );
                    assert forall|j: int| 0 <= j < k + 1 implies has_inv_relay(
                        sim_mid,
                        *simulator,
                        #[trigger] successors@[j],
                        *receive_event,
                    ) by {
                        if j < k {
                            lemma_inv_relay_persists(
                                sim_mid,
                                sim_pre_call,
                                *simulator,
                                successors@[j],
                                *receive_event,
                            );
                        } else {
                            lemma_inv_relay_new(
                                sim_mid,
                                sim_pre_call,
                                *simulator,
                                successors@[j],
                                *receive_event,
                            );
                        }
                    }
                }
                k = k + 1;
            }
            proof {
                let dom_after = self.ecs.local_block_tree@[node as int]@.dom();
                assert forall|d: usize|
                    #[trigger] is_descendant(
                        dom_after,
                        self.resource.blocks@,
                        d,
                        block_index,
                    ) implies has_inv_relay(sim_mid, *simulator, d, *receive_event) by {
                    assert(successors@.contains(d));
                    let j = choose|j: int| 0 <= j < successors@.len() && successors@[j] == d;
                }
            }
        } else {
            if let Some(parent) = self.resource.blocks[block_index].get_single_parent() {
                self.simulate_download(
                    parent,
                    simulator,
                    MessageType::RequestDataMessage(DataType::IsBlock),
                    receive_event,
                );
            }
        }
    }

    /// Dispatches an arriving message to its handler; messages at
    /// disconnected nodes, or about unknown block ids, are protocol
    /// drops and change nothing.
    pub fn receive(&mut self, simulator: &mut Simulator, receive_event: &ReceiveEvent)
        requires
            old(self).wf(),
            old(simulator).wf(),
            old(simulator).inserted_events + 2 * old(self).resource.blocks@.len() + 3 <= u64::MAX,
        ensures
            final(self).wf(),
            final(simulator).wf(),
            final(simulator).simulation_time == old(simulator).simulation_time,
            queue_only_grows(old(simulator).queue_multiset(), final(simulator).queue_multiset()),
            final(self).resource.blocks@ == old(self).resource.blocks@,
            final(simulator).inserted_events >= old(simulator).inserted_events,
            topology_unchanged(*old(self), *final(self)),
            !(receive_event.node < old(self).ecs.num_of_nodes
                && old(self).ecs.is_connected@[receive_event.node as int]
                && receive_event.block_index < old(self).resource.blocks@.len()) ==> {
                &&& *final(self) == *old(self)
                &&& final(simulator).event_queue@ == old(simulator).event_queue@
            },
            (receive_event.node < old(self).ecs.num_of_nodes && old(
                self,
            ).ecs.is_connected@[receive_event.node as int] && receive_event.block_index < old(
                self,
            ).resource.blocks@.len() && receive_event.msg_type matches MessageType::DataMessage(_))
                ==> final(self).ecs.local_block_tree@[receive_event.node as int]@.contains_key(
                receive_event.block_index,
            ),
            (receive_event.node < old(self).ecs.num_of_nodes && old(
                self,
            ).ecs.is_connected@[receive_event.node as int] && receive_event.block_index < old(
                self,
            ).resource.blocks@.len() && receive_event.msg_type matches MessageType::InvMessage(_))
                ==> {
                &&& (final(self).ecs.already_seen_blocks@[receive_event.node as int].0)@
                    == inv_seen_after(
                    (old(self).ecs.already_seen_blocks@[receive_event.node as int].0)@,
                    receive_event.block_index,
                )
                &&& final(simulator).inserted_events == old(simulator).inserted_events
                    + inv_requests(
                    (old(self).ecs.already_seen_blocks@[receive_event.node as int].0)@,
                    receive_event.block_index,
                )
            },
            (receive_event.node < old(self).ecs.num_of_nodes && old(
                self,
            ).ecs.is_connected@[receive_event.node as int] && receive_event.block_index < old(
                self,
            ).resource.blocks@.len() && (receive_event.msg_type matches
            MessageType::RequestDataMessage(_))) ==> ({
                let seen = (old(self).ecs.already_seen_blocks@[receive_event.node as int].0)@;
                let served = seen.contains_key(receive_event.block_index)
                    && seen[receive_event.block_index];
                &&& (served ==> final(simulator).inserted_events == old(
                    simulator,
                ).inserted_events + 1)
                &&& (!served ==> *final(self) == *old(self) && final(simulator).event_queue@
                    == old(simulator).event_queue@)
            }),
            forall|se: ScheduledEvent|
                final(simulator).queue_multiset().count(se) > old(
                    simulator,
                ).queue_multiset().count(se) ==> (match se.event {
                    Event::Send(s) => s.node == receive_event.node && s.from
                        == receive_event.from,
                    Event::BlockConfirmation(c) => c.node_index == old(
                        self,
                    ).ecs.consensus_algorithm@[receive_event.node as int].node_index,
                    _ => false,
                }),
            receive_event.msg_type matches MessageType::VoteMessage ==> {
                &&& *final(self) == *old(self)
                &&& final(simulator).event_queue@ == old(simulator).event_queue@
            },
    {
        let node = receive_event.node;
        if !node_is_connected(&self.ecs.is_connected, node) {
            return ;
        }
        if receive_event.block_index >= self.resource.blocks.len() {
            return ;
        }
        match receive_event.msg_type {
            MessageType::DataMessage(_) => self.process_data_message(simulator, receive_event),
            MessageType::InvMessage(_) => self.process_inv_message(simulator, receive_event),
            MessageType::RequestDataMessage(_) => self.process_request_data_message(
                simulator,
                receive_event,
            ),
            MessageType::VoteMessage => (),
        }
    }
}

} // verus!
