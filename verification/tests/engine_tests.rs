use rust_jabs::block::BitcoinBlock;
use rust_jabs::block_factory::BlockFactory;
use rust_jabs::connection::{connect_node, disconnect_node, node_is_connected, ConnectionError};
use rust_jabs::event::{BlockConfirmationEvent, Event, ReceiveEvent, SendEvent};
use rust_jabs::link::{assign_all_bandwidths, remaining_time_to_load, DistributionError};
use rust_jabs::message::{DataType, MessageType};
use rust_jabs::neighbors::{assign_random_neighbors, generated_neighbors_min_max, is_neighbors_bidirectional};
use rust_jabs::network::BitcoinNetwork;
use rust_jabs::node::{Downlink, Link, Neighbors, Uplink};
use rust_jabs::randomness::{RandomnessSource, SplitMixRandomness};
use rust_jabs::scheduled_event::ScheduledEvent;
use rust_jabs::simulator::Simulator;

fn mk_block(height: i32, parent: Option<usize>, size: u64) -> BitcoinBlock {
    match parent {
        None => BitcoinBlock::new(0, None, height, size, 0, 0),
        Some(p) => BitcoinBlock::new_with_parents(0, Some(0), height, vec![p], size, 0, 0),
    }
}

fn confirmation(block: usize, node: usize) -> Event {
    Event::BlockConfirmation(BlockConfirmationEvent::new(block, node))
}

#[test]
fn scheduler_pops_in_fire_time_order() {
    let mut sim = Simulator::new();
    sim.put_event(confirmation(1, 0), 50);
    sim.put_event(confirmation(2, 0), 10);
    sim.put_event(confirmation(3, 0), 30);
    let a = sim.pop_next_event().unwrap();
    let b = sim.pop_next_event().unwrap();
    let c = sim.pop_next_event().unwrap();
    assert_eq!(a.time(), 10);
    assert_eq!(b.time(), 30);
    assert_eq!(c.time(), 50);
    assert_eq!(sim.simulation_time, 50);
    assert!(!sim.is_there_more_events());
}

#[test]
fn scheduler_breaks_ties_by_insertion_order() {
    let mut sim = Simulator::new();
    sim.put_event(confirmation(7, 0), 20);
    sim.put_event(confirmation(8, 0), 20);
    sim.put_event(confirmation(9, 0), 20);
    let a = sim.pop_next_event().unwrap();
    let b = sim.pop_next_event().unwrap();
    let c = sim.pop_next_event().unwrap();
    assert_eq!(a.number(), 0);
    assert_eq!(b.number(), 1);
    assert_eq!(c.number(), 2);
    assert!(matches!(a.event, Event::BlockConfirmation(ev) if ev.block_index == 7));
    assert!(matches!(c.event, Event::BlockConfirmation(ev) if ev.block_index == 9));
}

#[test]
fn scheduler_zero_delay_fires_at_current_time_after_existing_ties() {
    let mut sim = Simulator::new();
    sim.put_event(confirmation(1, 0), 5);
    let first = sim.pop_next_event().unwrap();
    assert_eq!(first.time(), 5);
    // Scheduled at delay zero while the clock stands at 5.
    sim.put_event(confirmation(2, 0), 0);
    sim.put_event(confirmation(3, 0), 0);
    let second = sim.pop_next_event().unwrap();
    assert_eq!(second.time(), 5);
    assert!(matches!(second.event, Event::BlockConfirmation(ev) if ev.block_index == 2));
}

#[test]
fn scheduler_never_schedules_in_the_past() {
    let mut sim = Simulator::new();
    sim.put_event(confirmation(1, 0), 100);
    sim.pop_next_event().unwrap();
    assert_eq!(sim.simulation_time, 100);
    sim.put_event(confirmation(2, 0), 0);
    sim.put_event(confirmation(3, 0), 7);
    let a = sim.pop_next_event().unwrap();
    let b = sim.pop_next_event().unwrap();
    assert!(a.time() >= 100);
    assert!(b.time() >= a.time());
    assert_eq!(b.time(), 107);
}

#[test]
fn scheduler_reset_clears_queue_and_clock() {
    let mut sim = Simulator::new();
    sim.put_event(confirmation(1, 0), 3);
    sim.put_event(confirmation(2, 0), 4);
    sim.reset();
    assert!(!sim.is_there_more_events());
    assert_eq!(sim.simulation_time, 0);
    assert_eq!(sim.inserted_events, 2);
}

#[test]
fn scheduled_event_accessors() {
    let se = ScheduledEvent::new(confirmation(4, 5), 77, 9);
    assert_eq!(se.time(), 77);
    assert_eq!(se.number(), 9);
}

#[test]
fn link_serializes_consecutive_transfers() {
    // 8_000_000_000 bits per second moves one byte per nanosecond.
    let mut link = Link { bandwidth: 8_000_000_000, latest_loaded_time_done: 0 };
    let sim = Simulator::new();
    let d1 = remaining_time_to_load(&mut link, &sim, 1000);
    let d2 = remaining_time_to_load(&mut link, &sim, 500);
    assert_eq!(d1, 1000);
    assert_eq!(d2, 1500);
    assert_eq!(link.latest_loaded_time_done, 1500);
}

#[test]
fn link_fifo_two_back_to_back_sends() {
    // The second transfer finishes no earlier than the sum of both
    // loading times: (size1 + size2) * 8 / bandwidth.
    let mut link = Link { bandwidth: 4_000_000, latest_loaded_time_done: 0 };
    let sim = Simulator::new();
    let size1: u64 = 100_000;
    let size2: u64 = 50_000;
    let d1 = remaining_time_to_load(&mut link, &sim, size1);
    let d2 = remaining_time_to_load(&mut link, &sim, size2);
    let expected1 = size1 * 8 * 1_000_000_000 / 4_000_000;
    let expected_sum = (size1 + size2) * 8 * 1_000_000_000 / 4_000_000;
    assert_eq!(d1, expected1);
    assert!(d2 >= expected_sum);
    assert_eq!(link.latest_loaded_time_done, d2);
}

#[test]
fn link_idle_time_does_not_accumulate() {
    let mut link = Link { bandwidth: 8_000_000_000, latest_loaded_time_done: 100 };
    let mut sim = Simulator::new();
    // Let the clock run far past the link's busy horizon.
    sim.put_event(confirmation(0, 0), 5000);
    sim.pop_next_event().unwrap();
    let d = remaining_time_to_load(&mut link, &sim, 10);
    assert_eq!(d, 10);
    assert_eq!(link.latest_loaded_time_done, 5010);
}

#[test]
fn message_wire_sizes() {
    let blocks = vec![mk_block(0, None, 0), mk_block(1, Some(0), 123_456)];
    let inv = MessageType::InvMessage(DataType::IsBlock);
    let get = MessageType::RequestDataMessage(DataType::IsBlock);
    let data = MessageType::DataMessage(DataType::IsBlock);
    assert_eq!(inv.get_size(1, &blocks), 37);
    assert_eq!(get.get_size(1, &blocks), 40);
    assert_eq!(data.get_size(1, &blocks), 123_456);
}

#[test]
fn compact_size_formula() {
    // header + (size - header) * 6 / 200
    assert_eq!(BlockFactory::compact_size(1_000_000), (1_000_000 - 80) * 6 / 200 + 80);
    assert_eq!(BlockFactory::compact_size(1_000_000), 30077);
    assert_eq!(BlockFactory::compact_size(80), 80);
    assert_eq!(BlockFactory::compact_size(10), 80);
    assert_eq!(BlockFactory::compact_size(280), 86);
}

#[test]
fn connection_status_round_trip() {
    let mut is_connected = vec![false, false];
    assert!(!node_is_connected(&is_connected, 0));
    assert!(connect_node(&mut is_connected, 0).is_ok());
    assert!(node_is_connected(&is_connected, 0));
    assert!(disconnect_node(&mut is_connected, 0).is_ok());
    assert!(!node_is_connected(&is_connected, 0));
    assert!(!node_is_connected(&is_connected, 7));
    assert_eq!(connect_node(&mut is_connected, 7), Err(ConnectionError::IndexOutOfBounds));
    assert_eq!(disconnect_node(&mut is_connected, 7), Err(ConnectionError::IndexOutOfBounds));
}

struct ZeroBandwidthSource;

impl RandomnessSource for ZeroBandwidthSource {
    fn sample_index(&mut self, _bound: usize) -> usize {
        0
    }
    fn latency_delay(&mut self, _from_country: usize, _to_country: usize) -> u64 {
        0
    }
    fn exponential_delay(&mut self, mean: u64) -> u64 {
        mean
    }
    fn block_size(&mut self) -> u64 {
        500_000
    }
    fn block_weight(&mut self) -> u64 {
        1
    }
    fn upload_bandwidth(&mut self, _country: usize) -> u64 {
        0
    }
    fn download_bandwidth(&mut self, _country: usize) -> u64 {
        0
    }
    fn hash_power(&mut self) -> u64 {
        0
    }
    fn node_region(&mut self) -> usize {
        0
    }
    fn miner_region(&mut self) -> usize {
        0
    }
}

#[test]
fn zero_bandwidth_sample_is_fatal() {
    let mut uplink = vec![Uplink { link: Link { bandwidth: 1, latest_loaded_time_done: 0 } }];
    let mut downlink = vec![Downlink { link: Link { bandwidth: 1, latest_loaded_time_done: 0 } }];
    let country = vec![0usize];
    let mut rng = ZeroBandwidthSource;
    let r = assign_all_bandwidths(&mut uplink, &mut downlink, &country, &mut rng, 1);
    assert_eq!(r, Err(DistributionError::ZeroBandwidth));
}

#[test]
fn zero_hash_power_sample_is_fatal() {
    let miners = vec![0usize];
    let mut hash_power: Vec<Option<u64>> = vec![None, None];
    let mut rng = ZeroBandwidthSource;
    let r = rust_jabs::prepare::reset_and_sample_all_bitcoin_miners_hash_power(
        &miners,
        &mut hash_power,
        &mut rng,
    );
    assert_eq!(r, Err(DistributionError::ZeroHashPower));
}

#[test]
fn splitmix_source_is_deterministic() {
    let mut a = SplitMixRandomness::new(42);
    let mut b = SplitMixRandomness::new(42);
    for _ in 0..100 {
        assert_eq!(a.sample_index(1000), b.sample_index(1000));
    }
    let mut c = SplitMixRandomness::new(42);
    let mut seen_different = false;
    let mut d = SplitMixRandomness::new(43);
    for _ in 0..100 {
        if c.sample_index(1_000_000) != d.sample_index(1_000_000) {
            seen_different = true;
        }
    }
    assert!(seen_different);
}

#[test]
fn event_constructors_carry_fields() {
    let r = ReceiveEvent::new(3, 1, 2, MessageType::InvMessage(DataType::IsBlock));
    assert_eq!(r.block_index, 3);
    assert_eq!(r.from, 1);
    assert_eq!(r.node, 2);
    let s = SendEvent::new(4, 5, 6, MessageType::DataMessage(DataType::IsBlock));
    assert_eq!(s.block_index, 4);
    assert_eq!(s.from, 5);
    assert_eq!(s.node, 6);
    let ns = Neighbors(vec![1, 2, 3]);
    assert_eq!(ns.0.len(), 3);
}

#[test]
fn random_neighbors_are_symmetric() {
    let mut rng = SplitMixRandomness::new(5);
    let n = 40;
    let mut neighbors: Vec<Neighbors> = (0..n).map(|_| Neighbors(Vec::new())).collect();
    assign_random_neighbors(&mut neighbors, &mut rng, 8, n);
    assert!(is_neighbors_bidirectional(&neighbors));
    let (min_degree, max_degree) = generated_neighbors_min_max(&neighbors);
    assert!(min_degree >= 1);
    assert!(max_degree < n);
    for (node, ns) in neighbors.iter().enumerate() {
        for peer in &ns.0 {
            assert!(*peer < n && *peer != node);
        }
    }
    // An asymmetric relation is recognized as such.
    neighbors[0].0.push(39);
    let fixed = neighbors[39].0.contains(&0);
    if !fixed {
        assert!(!is_neighbors_bidirectional(&neighbors));
    }
}

#[test]
fn prepare_builds_a_well_formed_world() {
    let mut rng = SplitMixRandomness::new(1);
    let mut network = BitcoinNetwork::new_with_size(20, 64, 600, 2, 0, 225, 4);
    network.prepare(&mut rng, 600, 8, 4).unwrap();
    assert!(is_neighbors_bidirectional(&network.ecs.neighbors));
    assert_eq!(network.resource.blocks.len(), 1);
    assert_eq!(network.resource.blocks[0].get_height(), 0);
    assert!(network.resource.blocks[0].get_parents().is_empty());
    assert_eq!(network.resource.miners.len(), 4);
    for miner in &network.resource.miners {
        assert!(network.ecs.hash_power[*miner].is_some());
    }
    for connected in &network.ecs.is_connected {
        assert!(*connected);
    }
    for node in 0..20 {
        assert!(network.ecs.local_block_tree[node].contains(0));
        assert!(network.ecs.uplink[node].link.bandwidth >= 1);
        assert!(network.ecs.downlink[node].link.bandwidth >= 1);
    }
}

#[test]
fn miner_ids_are_pairwise_distinct() {
    let mut rng = SplitMixRandomness::new(11);
    let mut miners: Vec<usize> = Vec::new();
    rust_jabs::prepare::sample_bitcoin_miner_nodes(&mut miners, &mut rng, 30, 12);
    assert_eq!(miners.len(), 12);
    for (i, m) in miners.iter().enumerate() {
        assert!(*m < 30);
        for other in &miners[i + 1..] {
            assert_ne!(m, other);
        }
    }
    // Drawing the whole population forces a permutation of it.
    let mut all: Vec<usize> = Vec::new();
    rust_jabs::prepare::sample_bitcoin_miner_nodes(&mut all, &mut rng, 5, 5);
    let mut sorted = all.clone();
    sorted.sort();
    assert_eq!(sorted, vec![0, 1, 2, 3, 4]);
}

#[test]
fn neighbor_lists_are_duplicate_free_and_nonempty() {
    let mut rng = SplitMixRandomness::new(9);
    let n = 25;
    let mut neighbors: Vec<Neighbors> = (0..n).map(|_| Neighbors(Vec::new())).collect();
    assign_random_neighbors(&mut neighbors, &mut rng, 4, n);
    for ns in &neighbors {
        assert!(!ns.0.is_empty());
        let mut sorted = ns.0.clone();
        sorted.sort();
        sorted.dedup();
        assert_eq!(sorted.len(), ns.0.len(), "a neighbor list holds a duplicate");
    }
    assert!(is_neighbors_bidirectional(&neighbors));
}

#[test]
fn bandwidth_assignment_preserves_busy_horizons() {
    let mut uplink = vec![
        Uplink { link: Link { bandwidth: 1, latest_loaded_time_done: 123_456 } },
        Uplink { link: Link { bandwidth: 1, latest_loaded_time_done: 0 } },
    ];
    let mut downlink = vec![
        Downlink { link: Link { bandwidth: 1, latest_loaded_time_done: 77 } },
        Downlink { link: Link { bandwidth: 1, latest_loaded_time_done: 88 } },
    ];
    let country = vec![0usize, 1usize];
    let mut rng = SplitMixRandomness::new(2);
    assign_all_bandwidths(&mut uplink, &mut downlink, &country, &mut rng, 2).unwrap();
    assert_eq!(uplink[0].link.latest_loaded_time_done, 123_456);
    assert_eq!(uplink[1].link.latest_loaded_time_done, 0);
    assert_eq!(downlink[0].link.latest_loaded_time_done, 77);
    assert_eq!(downlink[1].link.latest_loaded_time_done, 88);
    assert!(uplink[0].link.bandwidth >= 1);
    assert!(downlink[1].link.bandwidth >= 1);
}
