use rust_jabs::block::BitcoinBlock;
use rust_jabs::consensus::{NakamotoConsensus, NakamotoConsensusConfig};
use rust_jabs::local_block_tree::{assign_initial_local_block_trees, LocalBlockTree};
use rust_jabs::loggers::{BlockPropagationDelayLogger, EventLoggerInfo};
use rust_jabs::message::{DataType, MessageType};
use rust_jabs::network::BitcoinNetwork;
use rust_jabs::randomness::SplitMixRandomness;
use rust_jabs::simulator::Simulator;

/// A linear store: block i extends block i-1.
fn chain_store(len: usize) -> Vec<BitcoinBlock> {
    let mut blocks = vec![BitcoinBlock::generate_genesis_block()];
    for i in 1..len {
        blocks.push(BitcoinBlock::new_with_parents(
            i as u64,
            Some(0),
            i as i32,
            vec![i - 1],
            1000,
            0,
            0,
        ));
    }
    blocks
}

#[test]
fn new_tree_holds_connected_genesis_only() {
    let tree = LocalBlockTree::new();
    assert!(tree.contains(0));
    assert!(!tree.contains(1));
    let lb = tree.local_block_dag.get(&0).unwrap();
    assert!(lb.is_connected_to_genesis);
    assert_eq!(lb.block_index, 0);
    assert!(lb.children_index.is_empty());
}

#[test]
fn add_wires_children_and_connectivity() {
    let blocks = chain_store(3);
    let mut tree = LocalBlockTree::new();
    tree.add(1, &blocks);
    assert!(tree.contains(1));
    assert!(tree.local_block_dag.get(&1).unwrap().is_connected_to_genesis);
    assert!(tree.local_block_dag.get(&0).unwrap().children_index.contains(&1));
    tree.add(2, &blocks);
    assert!(tree.local_block_dag.get(&2).unwrap().is_connected_to_genesis);
}

#[test]
fn add_out_of_order_propagates_connectivity() {
    let blocks = chain_store(4);
    let mut tree = LocalBlockTree::new();
    // Children arrive before their ancestors.
    tree.add(3, &blocks);
    tree.add(2, &blocks);
    assert!(!tree.local_block_dag.get(&2).unwrap().is_connected_to_genesis);
    assert!(!tree.local_block_dag.get(&3).unwrap().is_connected_to_genesis);
    // The missing link arrives: everything becomes connected at once.
    tree.add(1, &blocks);
    assert!(tree.local_block_dag.get(&1).unwrap().is_connected_to_genesis);
    assert!(tree.local_block_dag.get(&2).unwrap().is_connected_to_genesis);
    assert!(tree.local_block_dag.get(&3).unwrap().is_connected_to_genesis);
}

#[test]
fn add_same_block_twice_leaves_tree_unchanged() {
    let blocks = chain_store(3);
    let mut tree = LocalBlockTree::new();
    tree.add(1, &blocks);
    let len_before = tree.local_block_dag.len();
    let children_before: Vec<usize> = {
        let mut v: Vec<usize> = tree
            .local_block_dag
            .get(&0)
            .unwrap()
            .children_index
            .iter()
            .copied()
            .collect();
        v.sort();
        v
    };
    tree.add(1, &blocks);
    assert_eq!(tree.local_block_dag.len(), len_before);
    let children_after: Vec<usize> = {
        let mut v: Vec<usize> = tree
            .local_block_dag
            .get(&0)
            .unwrap()
            .children_index
            .iter()
            .copied()
            .collect();
        v.sort();
        v
    };
    assert_eq!(children_before, children_after);
    assert!(tree.local_block_dag.get(&1).unwrap().is_connected_to_genesis);
}

#[test]
fn successors_follow_child_links_inside_the_tree() {
    // A fork: 0 <- 1 <- 2 and 1 <- 3.
    let mut blocks = chain_store(3);
    blocks.push(BitcoinBlock::new_with_parents(3, Some(0), 2, vec![1], 1000, 0, 0));
    let mut tree = LocalBlockTree::new();
    tree.add(1, &blocks);
    tree.add(2, &blocks);
    tree.add(3, &blocks);
    let succ = tree.get_all_successors(1, &blocks).unwrap();
    assert_eq!(succ.len(), 2);
    assert!(succ.contains(&2));
    assert!(succ.contains(&3));
    assert!(tree.get_all_successors(2, &blocks).is_none());
    assert!(tree.get_all_successors(9, &blocks).is_none());
}

#[test]
fn ancestor_at_height_walks_received_parents() {
    let blocks = chain_store(5);
    let mut tree = LocalBlockTree::new();
    tree.add(1, &blocks);
    tree.add(2, &blocks);
    tree.add(3, &blocks);
    tree.add(4, &blocks);
    assert_eq!(tree.get_single_ancestor_of_height(4, 2, &blocks), Some(2));
    assert_eq!(tree.get_single_ancestor_of_height(4, 4, &blocks), Some(4));
    assert_eq!(tree.get_single_ancestor_of_height(4, 0, &blocks), Some(0));
    assert_eq!(tree.get_single_ancestor_of_height(2, 3, &blocks), None);
}

#[test]
fn ancestor_at_height_stops_at_gaps() {
    let blocks = chain_store(5);
    let mut tree = LocalBlockTree::new();
    tree.add(3, &blocks);
    tree.add(4, &blocks);
    // Blocks 1 and 2 never arrived: the walk from 4 hits a gap.
    assert_eq!(tree.get_single_ancestor_of_height(4, 1, &blocks), None);
}

#[test]
fn all_single_ancestors_collects_received_chain() {
    let blocks = chain_store(4);
    let mut tree = LocalBlockTree::new();
    tree.add(1, &blocks);
    tree.add(2, &blocks);
    tree.add(3, &blocks);
    let anc = tree.get_all_single_ancestors(3, &blocks);
    assert_eq!(anc.len(), 3);
    assert!(anc.contains(&0) && anc.contains(&1) && anc.contains(&2));
    assert!(!anc.contains(&3));
    let none = tree.get_all_single_ancestors(0, &blocks);
    assert!(none.is_empty());
}

#[test]
fn common_ancestor_of_forked_chains() {
    // 0 <- 1 <- 2 <- 3 and 1 <- 4 <- 5.
    let mut blocks = chain_store(4);
    blocks.push(BitcoinBlock::new_with_parents(4, Some(0), 2, vec![1], 1000, 0, 0));
    blocks.push(BitcoinBlock::new_with_parents(5, Some(0), 3, vec![4], 1000, 0, 0));
    let mut tree = LocalBlockTree::new();
    for b in 1..6 {
        tree.add(b, &blocks);
    }
    assert_eq!(tree.get_common_ancestor(3, 5, &blocks), 1);
    assert_eq!(tree.get_common_ancestor(2, 4, &blocks), 1);
    assert_eq!(tree.get_common_ancestor(3, 2, &blocks), 2);
    assert_eq!(tree.get_common_ancestor(3, 3, &blocks), 3);
}

#[test]
fn assign_initial_trees_resets_every_node() {
    let blocks = chain_store(2);
    let mut trees = vec![LocalBlockTree::new(), LocalBlockTree::new()];
    trees[0].add(1, &blocks);
    assign_initial_local_block_trees(&mut trees, 2);
    assert!(!trees[0].contains(1));
    assert!(trees[0].contains(0));
    assert!(trees[1].contains(0));
}

#[test]
fn consensus_adopts_strictly_higher_blocks_only() {
    let blocks = chain_store(4);
    let mut tree = LocalBlockTree::new();
    tree.add(1, &blocks);
    tree.add(2, &blocks);
    let config = NakamotoConsensusConfig::new(600, 2, 0, 225);
    let mut consensus = NakamotoConsensus::new(&config);
    let mut sim = Simulator::new();
    consensus.new_incoming_block(1, &blocks, &config, &tree, &mut sim);
    assert_eq!(consensus.current_main_chain_head_index, 1);
    assert_eq!(consensus.longest_chain_len, 1);
    consensus.new_incoming_block(2, &blocks, &config, &tree, &mut sim);
    assert_eq!(consensus.current_main_chain_head_index, 2);
    assert_eq!(consensus.longest_chain_len, 2);
    // An equal-height competitor does not displace the head.
    consensus.new_incoming_block(2, &blocks, &config, &tree, &mut sim);
    assert_eq!(consensus.current_main_chain_head_index, 2);
    // The recorded chain length always equals the head's height.
    assert_eq!(consensus.longest_chain_len, blocks[consensus.current_main_chain_head_index].height);
}

#[test]
fn consensus_confirms_at_depth() {
    let blocks = chain_store(5);
    let mut tree = LocalBlockTree::new();
    for b in 1..5 {
        tree.add(b, &blocks);
    }
    let config = NakamotoConsensusConfig::new(600, 2, 0, 225);
    let mut consensus = NakamotoConsensus::new(&config);
    let mut sim = Simulator::new();
    for b in 1..5 {
        consensus.new_incoming_block(b, &blocks, &config, &tree, &mut sim);
    }
    // Head height 4, depth 2: block at height 2 is the confirmation
    // tip; its strict ancestors are confirmed with it.
    assert!(consensus.confirmed_blocks.contains(&0));
    assert!(consensus.confirmed_blocks.contains(&1));
    assert!(!consensus.confirmed_blocks.contains(&3));
    // Confirmation events were scheduled at delay zero.
    assert!(sim.is_there_more_events());
}

#[test]
fn depth_zero_confirms_every_accepted_block() {
    let blocks = chain_store(3);
    let mut tree = LocalBlockTree::new();
    tree.add(1, &blocks);
    let config = NakamotoConsensusConfig::new(600, 0, 0, 225);
    let mut consensus = NakamotoConsensus::new(&config);
    let mut sim = Simulator::new();
    consensus.new_incoming_block(1, &blocks, &config, &tree, &mut sim);
    // The new head itself is the confirmation tip.
    let se = sim.pop_next_event().unwrap();
    match se.event {
        rust_jabs::event::Event::BlockConfirmation(ev) => {
            assert_eq!(ev.block_index, 1);
            assert_eq!(ev.node_index, 0);
        }
        other => panic!("expected a confirmation event, got {:?}", other),
    }
    assert_eq!(se.time(), 0);
}

#[test]
fn first_mining_tick_uses_the_scaled_mean() {
    let interval: u64 = 600_000_000_000;
    let mut rng = SplitMixRandomness::new(3);
    let mut network = BitcoinNetwork::new_with_size(4, 16, interval, 2, 0, 225, 2);
    network.prepare(&mut rng, interval, 2, 2).unwrap();
    let mut sim = Simulator::new();
    network.insert_initial_event(&mut sim, &mut rng);
    // The deterministic source hands the mean back unchanged, so the
    // first tick of some miner fires exactly at the smallest mean:
    // total raw hash power times the target interval over the
    // miner's own draw.
    let total = network.resource.total_hash_power as u128;
    let mut expected_min = u64::MAX;
    for miner in &network.resource.miners {
        let own = network.ecs.hash_power[*miner].unwrap() as u128;
        let mean = (total * interval as u128 / own) as u64;
        if mean < expected_min {
            expected_min = mean;
        }
    }
    let first = sim.pop_next_event().unwrap();
    assert_eq!(first.time(), expected_min);
}

#[test]
fn propagation_share_threshold_is_the_floor_of_the_share() {
    let network = BitcoinNetwork::new_with_size(4, 4, 600, 2, 0, 225, 0);
    let mut logger = BlockPropagationDelayLogger::new(50);
    let data = MessageType::DataMessage(DataType::IsBlock);
    // Four nodes at fifty percent: the second distinct receiver
    // completes the share, duplicates do not advance it.
    let info0 = EventLoggerInfo::IsReceiveEvent(1, 0, 0, data, 5);
    let info0_again = EventLoggerInfo::IsReceiveEvent(1, 0, 0, data, 6);
    let info1 = EventLoggerInfo::IsReceiveEvent(1, 0, 1, data, 7);
    let info2 = EventLoggerInfo::IsReceiveEvent(1, 0, 2, data, 8);
    assert!(!logger.csv_output_condition_after_event(&info0, &network));
    assert!(!logger.csv_output_condition_after_event(&info0_again, &network));
    assert!(logger.csv_output_condition_after_event(&info1, &network));
    assert!(!logger.csv_output_condition_after_event(&info2, &network));
}
