//! The per-node component vectors, all keyed by the dense node id.

use crate::block::BitcoinBlock;
use crate::block::wf_block_store;
use crate::consensus::NakamotoConsensus;
use crate::local_block_tree::LocalBlockTree;
use crate::local_block_tree::tree_wf;
use crate::neighbors::neighbors_duplicate_free;
use crate::neighbors::neighbors_in_range;
use crate::neighbors::neighbors_symmetric;
use crate::node::AlreadySeenBlocks;
use crate::node::Downlink;
use crate::node::Link;
use crate::node::Neighbors;
use crate::node::NodeName;
use crate::node::Uplink;
use std::collections::HashMap;
use std::collections::HashSet;
use vstd::prelude::*;

verus! {

/// All node state, one dense vector per component; a node is just an
/// index into them.
pub struct BitcoinECS {
    pub node_name: Vec<Option<NodeName>>,
    pub is_connected: Vec<bool>,
    pub neighbors: Vec<Neighbors>,
    pub uplink: Vec<Uplink>,
    pub downlink: Vec<Downlink>,
    pub country: Vec<usize>,
    pub local_block_tree: Vec<LocalBlockTree>,
    pub already_seen_blocks: Vec<AlreadySeenBlocks>,
    pub consensus_algorithm: Vec<NakamotoConsensus>,
    pub hash_power: Vec<Option<u64>>,
    pub num_of_nodes: usize,
}

impl BitcoinECS {
    /// All component vectors have one slot per node.
    pub open spec fn lens_ok(&self) -> bool {
        &&& self.node_name@.len() == self.num_of_nodes
        &&& self.is_connected@.len() == self.num_of_nodes
        &&& self.neighbors@.len() == self.num_of_nodes
        &&& self.uplink@.len() == self.num_of_nodes
        &&& self.downlink@.len() == self.num_of_nodes
        &&& self.country@.len() == self.num_of_nodes
        &&& self.local_block_tree@.len() == self.num_of_nodes
        &&& self.already_seen_blocks@.len() == self.num_of_nodes
        &&& self.consensus_algorithm@.len() == self.num_of_nodes
        &&& self.hash_power@.len() == self.num_of_nodes
    }

    /// Component well-formedness against the global store: a
    /// symmetric in-range topology, usable links, well-formed local
    /// trees and consensus states, and positive miner hash powers.
    pub open spec fn wf(&self, blocks: Seq<BitcoinBlock>) -> bool {
        &&& self.lens_ok()
        &&& neighbors_in_range(self.neighbors@)
        &&& neighbors_symmetric(self.neighbors@)
        &&& neighbors_duplicate_free(self.neighbors@)
        &&& forall|n: int|
            0 <= n < self.num_of_nodes ==> (#[trigger] self.uplink@[n]).link.bandwidth >= 1
        &&& forall|n: int|
            0 <= n < self.num_of_nodes ==> (#[trigger] self.downlink@[n]).link.bandwidth >= 1
        &&& forall|n: int|
            0 <= n < self.num_of_nodes ==> tree_wf(
                (#[trigger] self.local_block_tree@[n])@,
                blocks,
            )
        &&& forall|n: int|
            0 <= n < self.num_of_nodes ==> (#[trigger] self.consensus_algorithm@[n]).wf(blocks)
        &&& forall|n: int|
            0 <= n < self.num_of_nodes ==> match #[trigger] self.hash_power@[n] {
                Some(h) => h >= 1,
                None => true,
            }
    }

    /// Allocates the component vectors for `num_of_nodes` nodes, all
    /// in their initial state: disconnected, no neighbors, unit
    /// links, genesis-only trees, genesis consensus, no hash power.
    pub fn create_with_size(num_of_nodes: usize) -> (r: BitcoinECS)
        ensures
            r.num_of_nodes == num_of_nodes,
            r.lens_ok(),
            forall|blocks: Seq<BitcoinBlock>| wf_block_store(blocks) ==> #[trigger] r.wf(blocks),
            forall|n: int| 0 <= n < num_of_nodes ==> !(#[trigger] r.is_connected@[n]),
            forall|n: int| 0 <= n < num_of_nodes ==> (#[trigger] r.neighbors@[n]).0@.len() == 0,
            forall|n: int| 0 <= n < num_of_nodes ==> (#[trigger] r.hash_power@[n]) is None,
            forall|n: int|
                0 <= n < num_of_nodes ==> ((#[trigger] r.local_block_tree@[n])@).dom() == Set::<
                    usize,
                >::empty().insert(0usize),
            forall|n: int|
                0 <= n < num_of_nodes ==> (#[trigger] r.consensus_algorithm@[n]).longest_chain_len
                    == 0 && r.consensus_algorithm@[n].current_main_chain_head_index == 0
                    && r.consensus_algorithm@[n].node_index == 0,
            forall|n: int|
                0 <= n < num_of_nodes ==> ((#[trigger] r.already_seen_blocks@[n]).0)@ =~= Map::<
                    usize,
                    bool,
                >::empty(),
    {
        let mut node_name: Vec<Option<NodeName>> = Vec::new();
        let mut is_connected: Vec<bool> = Vec::new();
        let mut neighbors: Vec<Neighbors> = Vec::new();
        let mut uplink: Vec<Uplink> = Vec::new();
        let mut downlink: Vec<Downlink> = Vec::new();
        let mut country: Vec<usize> = Vec::new();
        let mut local_block_tree: Vec<LocalBlockTree> = Vec::new();
        let mut already_seen_blocks: Vec<AlreadySeenBlocks> = Vec::new();
        let mut consensus_algorithm: Vec<NakamotoConsensus> = Vec::new();
        let mut hash_power: Vec<Option<u64>> = Vec::new();
        let mut n: usize = 0;
        while n < num_of_nodes
            invariant
                n <= num_of_nodes,
                node_name@.len() == n,
                is_connected@.len() == n,
                neighbors@.len() == n,
                uplink@.len() == n,
                downlink@.len() == n,
                country@.len() == n,
                local_block_tree@.len() == n,
                already_seen_blocks@.len() == n,
                consensus_algorithm@.len() == n,
                hash_power@.len() == n,
                forall|k: int| 0 <= k < n ==> !(#[trigger] is_connected@[k]),
                forall|k: int| 0 <= k < n ==> (#[trigger] neighbors@[k]).0@.len() == 0,
                forall|k: int| 0 <= k < n ==> (#[trigger] uplink@[k]).link.bandwidth == 1,
                forall|k: int| 0 <= k < n ==> (#[trigger] downlink@[k]).link.bandwidth == 1,
                forall|k: int| 0 <= k < n ==> (#[trigger] hash_power@[k]) is None,
                forall|k: int|
                    0 <= k < n ==> ((#[trigger] local_block_tree@[k])@).dom() == Set::<
                        usize,
                    >::empty().insert(0usize),
                forall|k: int|
                    0 <= k < n ==> forall|blocks: Seq<BitcoinBlock>|
                        wf_block_store(blocks) ==> #[trigger] tree_wf(
                            (#[trigger] local_block_tree@[k])@,
                            blocks,
                        ),
                forall|k: int|
                    0 <= k < n ==> (#[trigger] consensus_algorithm@[k]).longest_chain_len == 0
                        && consensus_algorithm@[k].current_main_chain_head_index == 0
                        && consensus_algorithm@[k].node_index == 0,
                forall|k: int|
                    0 <= k < n ==> ((#[trigger] already_seen_blocks@[k]).0)@ =~= Map::<
                        usize,
                        bool,
                    >::empty(),
            decreases num_of_nodes - n,
        {
            node_name.push(None);
            is_connected.push(false);
            neighbors.push(Neighbors(Vec::new()));
            uplink.push(Uplink { link: Link { bandwidth: 1, latest_loaded_time_done: 0 } });
            downlink.push(Downlink { link: Link { bandwidth: 1, latest_loaded_time_done: 0 } });
            country.push(0);
            local_block_tree.push(LocalBlockTree::new());
            already_seen_blocks.push(AlreadySeenBlocks(HashMap::new()));
            consensus_algorithm.push(
                NakamotoConsensus {
                    longest_chain_len: 0,
                    current_main_chain_head_index: 0,
                    confirmed_blocks: HashSet::new(),
                    node_index: 0,
                },
            );
            hash_power.push(None);
            n = n + 1;
        }
        let r = BitcoinECS {
            node_name,
            is_connected,
            neighbors,
            uplink,
            downlink,
            country,
            local_block_tree,
            already_seen_blocks,
            consensus_algorithm,
            hash_power,
            num_of_nodes,
        };
        proof {
            assert forall|blocks: Seq<BitcoinBlock>| wf_block_store(blocks) implies #[trigger] r.wf(
                blocks,
            ) by {
                assert forall|k: int, b: int|
                    0 <= k < r.neighbors@.len() && 0 <= b < r.neighbors@[k].0@.len() implies (
                #[trigger] r.neighbors@[k].0@[b]) < r.neighbors@.len() && r.neighbors@[k].0@[b]
                    != k by {
                    assert(r.neighbors@[k].0@.len() == 0);
                }
                assert forall|a: int, x: int, y: int|
                    #![trigger r.neighbors@[a].0@[x], r.neighbors@[a].0@[y]]
                    0 <= a < r.neighbors@.len() && 0 <= x < y < r.neighbors@[a].0@.len() implies r.neighbors@[a].0@[x] != r.neighbors@[a].0@[y] by {
                    assert(r.neighbors@[a].0@.len() == 0);
                }
                assert forall|a: usize, b: usize|
                    a < r.neighbors@.len() && b < r.neighbors@.len() implies ((
                #[trigger] r.neighbors@[a as int].0@.contains(b)) <==> r.neighbors@[b as int].0@.contains(
                    a,
                )) by {
                    assert(r.neighbors@[a as int].0@.len() == 0);
                    assert(r.neighbors@[b as int].0@.len() == 0);
                    if r.neighbors@[a as int].0@.contains(b) {
                        assert(false);
                    }
                    if r.neighbors@[b as int].0@.contains(a) {
                        assert(false);
                    }
                }
            }
        }
        r
    }
}

} // verus!
