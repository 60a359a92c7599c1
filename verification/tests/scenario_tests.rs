use rust_jabs::event::{Event, ReceiveEvent};
use rust_jabs::loggers::{
    BlockConfirmationLogger, BlockPropagationDelayLogger, BlockchainReorgLogger, ConfirmationRow,
    EventLoggerInfo, PropagationRow,
};
use rust_jabs::message::{DataType, MessageType};
use rust_jabs::network::BitcoinNetwork;
use rust_jabs::randomness::{RandomnessSource, SplitMixRandomness};
use rust_jabs::simulator::Simulator;

const SECOND: u64 = 1_000_000_000;

struct Outputs {
    confirmations: Vec<ConfirmationRow>,
    prop50: Vec<PropagationRow>,
    prop90: Vec<PropagationRow>,
    reorg_lengths: Vec<i32>,
    receive_events_executed: usize,
    executed: u64,
}

fn prepared_network<R: RandomnessSource>(
    rng: &mut R,
    num_nodes: usize,
    num_miners: usize,
    interval: u64,
    depth: i32,
) -> (BitcoinNetwork, Simulator) {
    let mut network = BitcoinNetwork::new_with_size(num_nodes, 256, interval, depth, 0, 225, num_miners);
    network.prepare(rng, interval, 8, num_miners).expect("distributions must be usable");
    let mut sim = Simulator::new();
    network.insert_initial_event(&mut sim, rng);
    (network, sim)
}

fn drive<R: RandomnessSource>(
    network: &mut BitcoinNetwork,
    sim: &mut Simulator,
    rng: &mut R,
    stop: u64,
    max_events: u64,
) -> Outputs {
    let conf_logger = BlockConfirmationLogger;
    let mut p50 = BlockPropagationDelayLogger::new(50);
    let mut p90 = BlockPropagationDelayLogger::new(90);
    let mut reorg_logger = BlockchainReorgLogger::new();
    let mut out = Outputs {
        confirmations: Vec::new(),
        prop50: Vec::new(),
        prop90: Vec::new(),
        reorg_lengths: Vec::new(),
        receive_events_executed: 0,
        executed: 0,
    };
    while out.executed < max_events {
        let (time, ev) = match sim.peek_event() {
            None => break,
            Some(se) => {
                if se.time() > stop {
                    break;
                }
                (se.time(), se.event)
            }
        };
        let info = ev.logger_data(time);
        if let EventLoggerInfo::IsReceiveEvent(
            b,
            _,
            n,
            MessageType::DataMessage(DataType::IsBlock),
            _,
        ) = info
        {
            network.block_reorg_before(&mut reorg_logger, &b, &n);
        }
        if matches!(ev, Event::Receive(_)) {
            out.receive_events_executed += 1;
        }
        sim.execute_next_event(network, rng);
        out.executed += 1;
        if conf_logger.csv_output_condition_after_event(&info) {
            if let Some(row) = conf_logger.csv_event_output(&info, network) {
                out.confirmations.push(row);
            }
        }
        if p50.csv_output_condition_after_event(&info, network) {
            if let Some(row) = p50.csv_event_output(&info, network) {
                out.prop50.push(row);
            }
        }
        if p90.csv_output_condition_after_event(&info, network) {
            if let Some(row) = p90.csv_event_output(&info, network) {
                out.prop90.push(row);
            }
        }
        let prev = reorg_logger.previous_head_chain_index;
        if network.block_reorg_after(&mut reorg_logger) {
            if let (EventLoggerInfo::IsReceiveEvent(_, _, n, _, _), Some(previous_head)) =
                (info, prev)
            {
                let len = network.block_reorg_output_length(&reorg_logger, previous_head, &n);
                out.reorg_lengths.push(len);
            }
        }
    }
    out
}

#[test]
fn trivial_two_node_confirmation() {
    let mut rng = SplitMixRandomness::new(0);
    let (mut network, mut sim) =
        prepared_network(&mut rng, 2, 1, 10 * SECOND, 1);
    let out = drive(&mut network, &mut sim, &mut rng, 1000 * SECOND, 2_000_000);
    assert!(out.confirmations.len() >= 1);
    let mut last_height_per_node = [0i32; 2];
    for row in &out.confirmations {
        let creator = row.block_creator.expect("confirmed blocks have creators");
        assert!(creator == 0 || creator == 1);
        assert!(row.block_height >= 1);
        assert!(row.node_index < 2);
        // Confirmation height is monotone non-decreasing per node.
        assert!(row.block_height >= last_height_per_node[row.node_index]);
        last_height_per_node[row.node_index] = row.block_height;
    }
}

#[test]
fn determinism_identical_seeds_reproduce_confirmations() {
    let run = || {
        let mut rng = SplitMixRandomness::new(42);
        let (mut network, mut sim) = prepared_network(&mut rng, 8, 2, 600 * SECOND, 6);
        drive(&mut network, &mut sim, &mut rng, 3600 * SECOND, 2_000_000).confirmations
    };
    let first = run();
    let second = run();
    assert_eq!(first, second);
    assert!(first.len() == second.len());
}

#[test]
fn stop_time_zero_executes_nothing() {
    let mut rng = SplitMixRandomness::new(0);
    let (mut network, mut sim) = prepared_network(&mut rng, 3, 1, 10 * SECOND, 1);
    let queue_before = sim.event_queue.len();
    let out = drive(&mut network, &mut sim, &mut rng, 0, 2_000_000);
    assert_eq!(out.executed, 0);
    assert!(out.confirmations.is_empty());
    assert!(out.prop50.is_empty());
    assert_eq!(sim.simulation_time, 0);
    assert_eq!(sim.event_queue.len(), queue_before);
    assert_eq!(network.resource.blocks.len(), 1);
}

#[test]
fn single_node_network_self_confirms_without_receive_events() {
    let mut rng = SplitMixRandomness::new(0);
    let (mut network, mut sim) = prepared_network(&mut rng, 1, 1, 10 * SECOND, 1);
    let out = drive(&mut network, &mut sim, &mut rng, 500 * SECOND, 2_000_000);
    // Blocks are delivered to their creator directly, so no receive
    // event is ever scheduled in a single-node network.
    assert_eq!(out.receive_events_executed, 0);
    assert!(out.confirmations.len() >= 1);
    for row in &out.confirmations {
        assert_eq!(row.node_index, 0);
    }
    assert!(network.resource.blocks.len() > 1);
}

fn count_getdata_sends(sim: &Simulator) -> usize {
    sim.event_queue
        .iter()
        .filter(|se| {
            matches!(
                se.event,
                Event::Send(s) if matches!(s.msg_type, MessageType::RequestDataMessage(_))
            )
        })
        .count()
}

#[test]
fn repeated_inv_provokes_at_most_one_getdata() {
    let mut rng = SplitMixRandomness::new(0);
    let (mut network, mut sim) = prepared_network(&mut rng, 2, 1, 10 * SECOND, 1);
    // Create block 1 at node 0 and let node 0 hold it.
    network.generate_new_block_and_receive_it(&mut sim, &mut rng, 0);
    assert_eq!(network.resource.blocks.len(), 2);
    let before = count_getdata_sends(&sim);
    let inv = ReceiveEvent::new(1, 0, 1, MessageType::InvMessage(DataType::IsBlock));
    network.receive(&mut sim, &inv);
    let after_first = count_getdata_sends(&sim);
    assert_eq!(after_first, before + 1);
    network.receive(&mut sim, &inv);
    let after_second = count_getdata_sends(&sim);
    assert_eq!(after_second, after_first);
}

#[test]
fn repeated_data_is_a_no_op() {
    let mut rng = SplitMixRandomness::new(0);
    let (mut network, mut sim) = prepared_network(&mut rng, 2, 1, 10 * SECOND, 1);
    network.generate_new_block_and_receive_it(&mut sim, &mut rng, 0);
    let data = ReceiveEvent::new(1, 0, 1, MessageType::DataMessage(DataType::IsBlock));
    network.receive(&mut sim, &data);
    assert!(network.ecs.local_block_tree[1].contains(1));
    let queue_len = sim.event_queue.len();
    let inserted = sim.inserted_events;
    let tree_len = network.ecs.local_block_tree[1].local_block_dag.len();
    // The same payload again: nothing changes at all.
    network.receive(&mut sim, &data);
    assert_eq!(sim.event_queue.len(), queue_len);
    assert_eq!(sim.inserted_events, inserted);
    assert_eq!(network.ecs.local_block_tree[1].local_block_dag.len(), tree_len);
}

#[test]
fn store_snapshots_form_a_prefix_chain() {
    let mut rng = SplitMixRandomness::new(7);
    let (mut network, mut sim) = prepared_network(&mut rng, 4, 2, 20 * SECOND, 2);
    drive(&mut network, &mut sim, &mut rng, 200 * SECOND, 2_000_000);
    let snapshot: Vec<(i32, u64, Option<usize>)> = network
        .resource
        .blocks
        .iter()
        .map(|b| (b.get_height(), b.get_size(), b.get_creator()))
        .collect();
    drive(&mut network, &mut sim, &mut rng, 400 * SECOND, 2_000_000);
    // The earlier serialization is a strict prefix of the later one.
    assert!(network.resource.blocks.len() >= snapshot.len());
    for (i, entry) in snapshot.iter().enumerate() {
        let b = &network.resource.blocks[i];
        assert_eq!(*entry, (b.get_height(), b.get_size(), b.get_creator()));
    }
}

#[test]
fn day_of_mining_smoke() {
    // A scaled-down day: sixty nodes, three miners, ten-minute mean
    // interval, one simulated day.
    let mut rng = SplitMixRandomness::new(0);
    let (mut network, mut sim) = prepared_network(&mut rng, 60, 3, 600 * SECOND, 6);
    let out = drive(&mut network, &mut sim, &mut rng, 86_400 * SECOND, 50_000_000);
    let generated = network.resource.blocks.len() - 1;
    assert!(generated >= 120 && generated <= 170, "generated {}", generated);
    // Ninety percent of the generated blocks propagate to ninety
    // percent of the nodes within the day.
    assert!(
        out.prop90.len() * 10 >= generated * 8,
        "only {} of {} blocks reached the ninety percent mark",
        out.prop90.len(),
        generated
    );
    // Median half-network propagation delay stays under thirty
    // simulated seconds.
    let mut delays: Vec<u64> = out.prop50.iter().map(|r| r.propagation_delay).collect();
    assert!(!delays.is_empty());
    delays.sort();
    let median = delays[delays.len() / 2];
    assert!(median < 30 * SECOND, "median delay {} ns", median);
}

struct PartitionSource {
    inner: SplitMixRandomness,
}

impl RandomnessSource for PartitionSource {
    fn sample_index(&mut self, bound: usize) -> usize {
        self.inner.sample_index(bound)
    }
    fn latency_delay(&mut self, from_country: usize, to_country: usize) -> u64 {
        if from_country == to_country {
            10_000_000 // 10 ms inside a cluster
        } else {
            300 * SECOND // the single slow bridge
        }
    }
    fn exponential_delay(&mut self, mean: u64) -> u64 {
        self.inner.exponential_delay(mean)
    }
    fn block_size(&mut self) -> u64 {
        self.inner.block_size()
    }
    fn block_weight(&mut self) -> u64 {
        self.inner.block_weight()
    }
    fn upload_bandwidth(&mut self, country: usize) -> u64 {
        self.inner.upload_bandwidth(country)
    }
    fn download_bandwidth(&mut self, country: usize) -> u64 {
        self.inner.download_bandwidth(country)
    }
    fn hash_power(&mut self) -> u64 {
        self.inner.hash_power()
    }
    fn node_region(&mut self) -> usize {
        0
    }
    fn miner_region(&mut self) -> usize {
        0
    }
}

#[test]
fn reorgs_appear_under_partition_bias() {
    let mut rng = PartitionSource { inner: SplitMixRandomness::new(0) };
    let (mut network, _) = prepared_network(&mut rng, 6, 0, 60 * SECOND, 6);
    // Two dense clusters {0,1,2} and {3,4,5} joined by the single
    // edge 2-5, with one miner in each cluster; the first cluster
    // mines twice as fast.
    network.ecs.neighbors = vec![
        rust_jabs::node::Neighbors(vec![1, 2]),
        rust_jabs::node::Neighbors(vec![0, 2]),
        rust_jabs::node::Neighbors(vec![0, 1, 5]),
        rust_jabs::node::Neighbors(vec![4, 5]),
        rust_jabs::node::Neighbors(vec![3, 5]),
        rust_jabs::node::Neighbors(vec![3, 4, 2]),
    ];
    network.ecs.country = vec![0, 0, 0, 1, 1, 1];
    network.resource.miners = vec![0, 3];
    network.ecs.hash_power = vec![Some(2), None, None, Some(1), None, None];
    network.resource.total_hash_power = 3;
    let mut sim = Simulator::new();
    network.insert_initial_event(&mut sim, &mut rng);
    let out = drive(&mut network, &mut sim, &mut rng, 5000 * SECOND, 5_000_000);
    assert!(!out.reorg_lengths.is_empty(), "no reorg was observed");
    for len in &out.reorg_lengths {
        assert!(*len >= 1);
    }
    let short = out.reorg_lengths.iter().filter(|l| **l < 6).count();
    assert!(short * 2 >= out.reorg_lengths.len());
}
