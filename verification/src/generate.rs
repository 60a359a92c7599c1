//! Creation of new blocks and their delivery to the creator.

use crate::block::BitcoinBlock;
use crate::block::lemma_height_bounds;
use crate::block::lemma_store_push;
use crate::block_factory::BITCOIN_BLOCK_HEADER_SIZE;
use crate::block_factory::BlockFactory;
use crate::connection::node_is_connected;
use crate::event::GenerateBlockWithoutTxEvent;
use crate::event::ReceiveEvent;
use crate::local_block_tree::lemma_tree_wf_store_push;
use crate::message::DataType;
use crate::message::MessageType;
use crate::network::BitcoinNetwork;
use crate::network::store_extended;
use crate::network::queue_only_grows;
use crate::network::topology_unchanged;
use crate::randomness::RandomnessSource;
use crate::simulator::Simulator;
use vstd::prelude::*;

verus! {

impl BitcoinNetwork {
    /// Appends a new block extending the node's canonical head to
    /// the global store — the only place the store grows — and
    /// delivers it to its creator through the ordinary receive path.
    /// When the store is at capacity the tick is dropped.
    pub fn generate_new_block_and_receive_it<R: RandomnessSource>(
        &mut self,
        simulator: &mut Simulator,
        rand: &mut R,
        node: usize,
    )
        requires
            old(self).wf(),
            old(simulator).wf(),
            old(self).has_room(*old(simulator)),
            node < old(self).ecs.num_of_nodes,
        ensures
            final(self).wf(),
            final(simulator).wf(),
            final(simulator).simulation_time == old(simulator).simulation_time,
            queue_only_grows(old(simulator).queue_multiset(), final(simulator).queue_multiset()),
            final(simulator).inserted_events >= old(simulator).inserted_events,
            forall|se: crate::scheduled_event::ScheduledEvent|
                final(simulator).queue_multiset().count(se) > old(
                    simulator,
                ).queue_multiset().count(se) ==> (match se.event {
                    crate::event::Event::Send(_) => true,
                    crate::event::Event::BlockConfirmation(_) => true,
                    _ => false,
                }),
            topology_unchanged(*old(self), *final(self)),
            store_extended(old(self).resource.blocks@, final(self).resource.blocks@),
            final(self).resource.blocks@.len() <= old(self).resource.blocks@.len() + 1,
            old(self).resource.blocks@.len() + 1 < 0x7fff_ffff ==> {
                let pre_blocks = old(self).resource.blocks@;
                let head = old(
                    self,
                ).ecs.consensus_algorithm@[node as int].current_main_chain_head_index;
                let nb = final(self).resource.blocks@[pre_blocks.len() as int];
                &&& final(self).resource.blocks@.len() == pre_blocks.len() + 1
                &&& nb.creator == Some(node)
                &&& nb.height == pre_blocks[head as int].height + 1
                &&& nb.parents@ == seq![head]
                &&& nb.creation_time == old(simulator).simulation_time
                &&& nb.size >= BITCOIN_BLOCK_HEADER_SIZE
                &&& nb.difficulty == old(self).resource.config.difficulty
                &&& (old(self).ecs.is_connected@[node as int] ==> final(self).ecs.local_block_tree@[node as int]@.contains_key(pre_blocks.len() as usize))
            },
    {
        if self.resource.blocks.len() + 1 >= 0x7fff_ffff {
            return ;
        }
        let new_block_index = self.resource.blocks.len();
        let canonical_chain_head =
            self.ecs.consensus_algorithm[node].current_main_chain_head_index;
        let weight = rand.block_weight();
        proof {
            lemma_height_bounds(self.resource.blocks@, canonical_chain_head as int);
        }
        let bitcoin_block_without_tx = BlockFactory::sample_bitcoin_block(
            &self.resource.blocks,
            simulator,
            rand,
            Some(node),
            canonical_chain_head,
            self.resource.config.difficulty,
            weight,
        );
        let ghost pre_blocks = self.resource.blocks@;
        self.resource.blocks.push(bitcoin_block_without_tx);
        proof {
            lemma_store_push(pre_blocks, bitcoin_block_without_tx);
            assert forall|n: int| 0 <= n < self.ecs.num_of_nodes implies crate::local_block_tree::tree_wf(
                (#[trigger] self.ecs.local_block_tree@[n])@,
                self.resource.blocks@,
            ) by {
                lemma_tree_wf_store_push(
                    self.ecs.local_block_tree@[n]@,
                    pre_blocks,
                    bitcoin_block_without_tx,
                );
                assert(self.resource.blocks@ == pre_blocks.push(bitcoin_block_without_tx));
            }
            assert forall|n: int| 0 <= n < self.ecs.num_of_nodes implies (
                #[trigger] self.ecs.consensus_algorithm@[n]).wf(self.resource.blocks@) by {
                assert(self.ecs.consensus_algorithm@[n].current_main_chain_head_index
                    < pre_blocks.len());
            }
            assert(self.wf());
            assert(pre_blocks.is_prefix_of(self.resource.blocks@));
        }
        let receive_at_this_node = ReceiveEvent::new(
            new_block_index,
            node,
            node,
            MessageType::DataMessage(DataType::IsBlock),
        );
        proof {
            assert(simulator.inserted_events + 2 * self.resource.blocks@.len() + 3 <= u64::MAX);
        }
        self.receive(simulator, &receive_at_this_node);
    }

    /// Dispatch of a block-creation event: creation at disconnected
    /// nodes is dropped.
    pub fn generate_new_block_without_tx<R: RandomnessSource>(
        &mut self,
        simulator: &mut Simulator,
        rand: &mut R,
        generate_event: &GenerateBlockWithoutTxEvent,
    )
        requires
            old(self).wf(),
            old(simulator).wf(),
            old(self).has_room(*old(simulator)),
        ensures
            final(self).wf(),
            final(simulator).wf(),
            final(simulator).simulation_time == old(simulator).simulation_time,
            queue_only_grows(old(simulator).queue_multiset(), final(simulator).queue_multiset()),
            final(simulator).inserted_events >= old(simulator).inserted_events,
            forall|se: crate::scheduled_event::ScheduledEvent|
                final(simulator).queue_multiset().count(se) > old(
                    simulator,
                ).queue_multiset().count(se) ==> (match se.event {
                    crate::event::Event::Send(_) => true,
                    crate::event::Event::BlockConfirmation(_) => true,
                    _ => false,
                }),
            topology_unchanged(*old(self), *final(self)),
            store_extended(old(self).resource.blocks@, final(self).resource.blocks@),
            !(generate_event.node < old(self).ecs.num_of_nodes && old(
                self,
            ).ecs.is_connected@[generate_event.node as int]) ==> {
                &&& *final(self) == *old(self)
                &&& final(simulator).event_queue@ == old(simulator).event_queue@
            },
            (generate_event.node < old(self).ecs.num_of_nodes && old(
                self,
            ).ecs.is_connected@[generate_event.node as int] && old(self).resource.blocks@.len() + 1
                < 0x7fff_ffff) ==> ({
                let pre_blocks = old(self).resource.blocks@;
                let head = old(
                    self,
                ).ecs.consensus_algorithm@[generate_event.node as int].current_main_chain_head_index;
                let nb = final(self).resource.blocks@[pre_blocks.len() as int];
                &&& final(self).resource.blocks@.len() == pre_blocks.len() + 1
                &&& nb.creator == Some(generate_event.node)
                &&& nb.height == pre_blocks[head as int].height + 1
                &&& nb.parents@ == seq![head]
                &&& nb.creation_time == old(simulator).simulation_time
                &&& final(self).ecs.local_block_tree@[generate_event.node as int]@.contains_key(
                    pre_blocks.len() as usize,
                )
            }),
    {
        let node = generate_event.node;
        if !node_is_connected(&self.ecs.is_connected, node) {
            return ;
        }
        self.generate_new_block_and_receive_it(simulator, rand, node);
    }
}

} // verus!
