//! One-time scenario preparation: population, topology, links,
//! genesis, and mining setup.

use crate::block::BitcoinBlock;
use crate::connection::set_all_nodes_connected;
use crate::link::DistributionError;
use crate::link::assign_all_bandwidths;
use crate::local_block_tree::assign_initial_local_block_trees;
use crate::neighbors::assign_random_neighbors;
use crate::neighbors::contains_index;
use crate::neighbors::is_neighbors_bidirectional;
use crate::network::BitcoinNetwork;
use crate::event::BlockMiningProcess;
use crate::event::Event;
use crate::randomness::RandomnessSource;
use crate::randomness::sample_distinct_from_pool;
use crate::scheduled_event::ScheduledEvent;
use crate::simulator::fire_time_of;
use crate::network::queue_only_grows;
use crate::simulator::Simulator;
use vstd::prelude::*;

verus! {

/// Draws `num_of_miners` pairwise distinct miner ids uniformly from
/// the node population.
pub fn sample_bitcoin_miner_nodes<R: RandomnessSource>(
    miners: &mut Vec<usize>,
    rand: &mut R,
    num_of_total_nodes: usize,
    num_of_miners: usize,
)
    requires
        num_of_total_nodes >= 1,
        num_of_miners <= num_of_total_nodes,
    ensures
        final(miners)@.len() == num_of_miners,
        forall|k: int| 0 <= k < num_of_miners ==> (#[trigger] final(miners)@[k])
            < num_of_total_nodes,
        forall|i: int, j: int|
            0 <= i < j < num_of_miners ==> (#[trigger] final(miners)@[i]) != #[trigger] final(miners)@[j],
{
    let mut pool: Vec<usize> = Vec::new();
    let mut p: usize = 0;
    while p < num_of_total_nodes
        invariant
            p <= num_of_total_nodes,
            pool@.len() == p,
            forall|x: int| 0 <= x < p ==> (#[trigger] pool@[x]) == x,
        decreases num_of_total_nodes - p,
    {
        pool.push(p);
        p = p + 1;
    }
    let ghost pool0 = pool@;
    let drawn = sample_distinct_from_pool(&mut pool, rand, num_of_miners);
    proof {
        assert forall|k: int| 0 <= k < drawn@.len() implies (#[trigger] drawn@[k])
            < num_of_total_nodes by {
            assert(pool0.contains(drawn@[k]));
            let y = choose|y: int| 0 <= y < pool0.len() && pool0[y] == drawn@[k];
        }
    }
    *miners = drawn;
}

/// Samples each node's country: miners from the miner-region
/// distribution, everyone else from the node-region distribution.
pub fn sample_bitcoin_node_countries<R: RandomnessSource>(
    country: &mut Vec<usize>,
    miners: &Vec<usize>,
    rand: &mut R,
    num_of_total_nodes: usize,
    num_of_miner: usize,
)
    requires
        old(country)@.len() == num_of_total_nodes,
        miners@.len() == num_of_miner,
    ensures
        final(country)@.len() == num_of_total_nodes,
{
    let mut node: usize = 0;
    while node < num_of_total_nodes
        invariant
            country@.len() == num_of_total_nodes,
            node <= num_of_total_nodes,
        decreases num_of_total_nodes - node,
    {
        if contains_index(miners, node) {
            country[node] = rand.miner_region();
        } else {
            country[node] = rand.node_region();
        }
        node = node + 1;
    }
}

/// Clears all hash powers, then draws one raw sample per miner and
/// returns the sum of the draws (the aggregate the per-miner mining
/// mean is scaled by). A zero draw is a distribution error.
pub fn reset_and_sample_all_bitcoin_miners_hash_power<R: RandomnessSource>(
    miners: &Vec<usize>,
    hash_power: &mut Vec<Option<u64>>,
    rand: &mut R,
) -> (r: Result<u64, DistributionError>)
    requires
        forall|k: int| 0 <= k < miners@.len() ==> (#[trigger] miners@[k])
            < old(hash_power)@.len(),
    ensures
        final(hash_power)@.len() == old(hash_power)@.len(),
        forall|n: int|
            0 <= n < final(hash_power)@.len() ==> match #[trigger] final(hash_power)@[n] {
                Some(h) => h >= 1,
                None => true,
            },
        r is Ok ==> forall|k: int|
            0 <= k < miners@.len() ==> (#[trigger] final(hash_power)@[miners@[k] as int]) is Some,
{
    let mut i: usize = 0;
    let len = hash_power.len();
    while i < len
        invariant
            hash_power@.len() == len,
            i <= len,
            forall|n: int| 0 <= n < i ==> (#[trigger] hash_power@[n]) is None,
        decreases len - i,
    {
        hash_power[i] = None;
        i = i + 1;
    }
    let mut total: u64 = 0;
    let mut k: usize = 0;
    while k < miners.len()
        invariant
            hash_power@.len() == len,
            k <= miners@.len(),
            len == old(hash_power)@.len(),
            forall|j: int| 0 <= j < miners@.len() ==> (#[trigger] miners@[j]) < len,
            forall|n: int|
                0 <= n < len ==> match #[trigger] hash_power@[n] {
                    Some(h) => h >= 1,
                    None => true,
                },
            forall|j: int| 0 <= j < k ==> (#[trigger] hash_power@[miners@[j] as int]) is Some,
        decreases miners@.len() - k,
    {
        let sampled = rand.hash_power();
        if sampled == 0 {
            return Err(DistributionError::ZeroHashPower);
        }
        let miner = miners[k];
        hash_power[miner] = Some(sampled);
        total = if sampled > u64::MAX - total {
            u64::MAX
        } else {
            total + sampled
        };
        k = k + 1;
    }
    Ok(total)
}

/// How many of the listed miners actually hold hash power — exactly
/// how many first mining ticks the initial scheduling puts in.
pub open spec fn armed_miner_count(miners: Seq<usize>, hash_power: Seq<Option<u64>>) -> nat
    decreases miners.len(),
{
    if miners.len() == 0 {
        0
    } else {
        armed_miner_count(miners.drop_last(), hash_power) + (if miners.last() < hash_power.len()
            && hash_power[miners.last() as int] is Some {
            1nat
        } else {
            0nat
        })
    }
}

impl BitcoinNetwork {
    /// Prepares the scenario once, before the first event: resets
    /// consensus per node, samples miners, countries and bandwidths,
    /// connects everyone, builds the symmetric random topology,
    /// resets the local trees, installs genesis, and draws the
    /// miners' hash powers. Afterwards the whole network is
    /// well-formed. A distribution error is fatal (a zero bandwidth
    /// or hash-power draw): the half-prepared network keeps its shape
    /// and at most genesis in the store, and is to be discarded.
    pub fn prepare<R: RandomnessSource>(
        &mut self,
        rand: &mut R,
        average_block_mining_interval: u64,
        min_neighbors: usize,
        num_of_miners: usize,
    ) -> (r: Result<(), DistributionError>)
        requires
            old(self).ecs.lens_ok(),
            old(self).ecs.num_of_nodes >= 1,
            num_of_miners <= old(self).ecs.num_of_nodes,
            old(self).resource.blocks@.len() == 0,
            old(self).resource.config.confirmation_depth >= 0,
            old(self).resource.config.genesis_block_index == 0,
            forall|n: int|
                0 <= n < old(self).ecs.num_of_nodes ==> (#[trigger] old(self).ecs.neighbors@[n]).0@.len()
                    == 0,
        ensures
            final(self).ecs.num_of_nodes == old(self).ecs.num_of_nodes,
            r is Ok ==> {
                &&& final(self).wf()
                &&& final(self).resource.blocks@.len() == 1
                &&& final(self).resource.miners@.len() == num_of_miners
                &&& forall|n: int|
                    0 <= n < final(self).ecs.num_of_nodes ==> final(self).ecs.is_connected@[n]
                &&& forall|k: int|
                    0 <= k < num_of_miners ==> (#[trigger] final(self).ecs.hash_power@[final(self).resource.miners@[k] as int]) is Some
                &&& final(self).resource.config.average_block_mining_interval
                    == average_block_mining_interval
            },
            r is Err ==> {
                &&& final(self).ecs.lens_ok()
                &&& final(self).resource.blocks@.len() <= 1
            },
    {
        let num_of_nodes = self.ecs.num_of_nodes;
        self.resource.config.average_block_mining_interval = average_block_mining_interval;

        let mut node_index: usize = 0;
        while node_index < num_of_nodes
            invariant
                self.ecs.lens_ok(),
                self.ecs.num_of_nodes == num_of_nodes,
                node_index <= num_of_nodes,
                self.resource.config.genesis_block_index == 0,
                self.resource.config.confirmation_depth >= 0,
                self.resource.config.average_block_mining_interval
                    == average_block_mining_interval,
                self.ecs.neighbors@ == old(self).ecs.neighbors@,
                self.resource.blocks@ == old(self).resource.blocks@,
                forall|n: int|
                    0 <= n < num_of_nodes ==> (#[trigger] self.ecs.neighbors@[n]).0@.len() == 0,
                forall|n: int|
                    0 <= n < node_index ==> {
                        let c = #[trigger] self.ecs.consensus_algorithm@[n];
                        &&& c.longest_chain_len == 0
                        &&& c.current_main_chain_head_index == 0
                        &&& c.node_index == n
                    },
            decreases num_of_nodes - node_index,
        {
            self.ecs.consensus_algorithm[node_index].initial_configuration(
                &self.resource.config,
                node_index,
            );
            node_index = node_index + 1;
        }

        sample_bitcoin_miner_nodes(&mut self.resource.miners, rand, num_of_nodes, num_of_miners);
        let miners_len = self.resource.miners.len();
        sample_bitcoin_node_countries(
            &mut self.ecs.country,
            &self.resource.miners,
            rand,
            num_of_nodes,
            miners_len,
        );
        set_all_nodes_connected(&mut self.ecs.is_connected, num_of_nodes);
        proof {
            assert forall|a: int, k: int|
                0 <= a < self.ecs.neighbors@.len() && 0 <= k < self.ecs.neighbors@[a].0@.len()
                implies (#[trigger] self.ecs.neighbors@[a].0@[k]) < self.ecs.neighbors@.len()
                && self.ecs.neighbors@[a].0@[k] != a by {
                assert(self.ecs.neighbors@[a].0@.len() == 0);
            }
            assert forall|a: usize, b: usize|
                a < self.ecs.neighbors@.len() && b < self.ecs.neighbors@.len() implies ((
            #[trigger] self.ecs.neighbors@[a as int].0@.contains(b))
                <==> self.ecs.neighbors@[b as int].0@.contains(a)) by {
                assert(self.ecs.neighbors@[a as int].0@.len() == 0);
                assert(self.ecs.neighbors@[b as int].0@.len() == 0);
                if self.ecs.neighbors@[a as int].0@.contains(b) {
                    assert(false);
                }
                if self.ecs.neighbors@[b as int].0@.contains(a) {
                    assert(false);
                }
            }
        }
        proof {
            assert forall|a: int, x: int, y: int|
                #![trigger self.ecs.neighbors@[a].0@[x], self.ecs.neighbors@[a].0@[y]]
                0 <= a < self.ecs.neighbors@.len() && 0 <= x < y
                    < self.ecs.neighbors@[a].0@.len() implies self.ecs.neighbors@[a].0@[x]
                != self.ecs.neighbors@[a].0@[y] by {
                assert(self.ecs.neighbors@[a].0@.len() == 0);
            }
        }
        assign_random_neighbors(&mut self.ecs.neighbors, rand, min_neighbors, num_of_nodes);
        let bidirectional = is_neighbors_bidirectional(&self.ecs.neighbors);
        assert(bidirectional);

        assign_initial_local_block_trees(&mut self.ecs.local_block_tree, num_of_nodes);

        let bandwidths = assign_all_bandwidths(
            &mut self.ecs.uplink,
            &mut self.ecs.downlink,
            &self.ecs.country,
            rand,
            num_of_nodes,
        );
        if let Err(e) = bandwidths {
            return Err(e);
        }

        // Genesis must always be the first block in the store.
        self.resource.blocks.push(BitcoinBlock::generate_genesis_block());

        let hash_powers = reset_and_sample_all_bitcoin_miners_hash_power(
            &self.resource.miners,
            &mut self.ecs.hash_power,
            rand,
        );
        match hash_powers {
            Err(e) => Err(e),
            Ok(total) => {
                self.resource.total_hash_power = total;
                Ok(())
            },
        }
    }

    /// Schedules the first mining tick of every miner.
    pub fn insert_initial_event<R: RandomnessSource>(
        &mut self,
        simulator: &mut Simulator,
        rand: &mut R,
    )
        requires
            old(self).wf(),
            old(simulator).wf(),
            old(simulator).inserted_events + old(self).resource.miners@.len() <= u64::MAX,
        ensures
            *final(self) == *old(self),
            final(simulator).wf(),
            final(simulator).simulation_time == old(simulator).simulation_time,
            queue_only_grows(old(simulator).queue_multiset(), final(simulator).queue_multiset()),
            final(simulator).inserted_events == old(simulator).inserted_events + armed_miner_count(
                old(self).resource.miners@,
                old(self).ecs.hash_power@,
            ),
            forall|se: ScheduledEvent|
                final(simulator).queue_multiset().count(se) > old(
                    simulator,
                ).queue_multiset().count(se) ==> (match se.event {
                    Event::BlockMining(m) => old(self).resource.miners@.contains(m.miner),
                    _ => false,
                }),
    {
        let count = self.resource.miners.len();
        let mut k: usize = 0;
        while k < count
            invariant
                self.wf(),
                *self == *old(self),
                simulator.wf(),
                simulator.simulation_time == old(simulator).simulation_time,
                count == self.resource.miners@.len(),
                k <= count,
                simulator.inserted_events == old(simulator).inserted_events + armed_miner_count(
                    old(self).resource.miners@.subrange(0, k as int),
                    old(self).ecs.hash_power@,
                ),
                armed_miner_count(
                    old(self).resource.miners@.subrange(0, k as int),
                    old(self).ecs.hash_power@,
                ) <= k,
                old(simulator).inserted_events + count <= u64::MAX,
                queue_only_grows(old(simulator).queue_multiset(), simulator.queue_multiset()),
                forall|se: ScheduledEvent|
                    simulator.queue_multiset().count(se) > old(
                        simulator,
                    ).queue_multiset().count(se) ==> (match se.event {
                        Event::BlockMining(m) => old(self).resource.miners@.contains(m.miner),
                        _ => false,
                    }),
            decreases count - k,
        {
            let miner = self.resource.miners[k];
            proof {
                let all = old(self).resource.miners@;
                assert(all.subrange(0, k + 1).drop_last() =~= all.subrange(0, k as int));
                assert(all.subrange(0, k + 1).last() == all[k as int]);
                assert(all.contains(all[k as int]));
            }
            self.initialize_mining_event(miner, simulator, rand);
            k = k + 1;
        }
        proof {
            let all = old(self).resource.miners@;
            assert(all.subrange(0, all.len() as int) =~= all);
        }
    }

    /// Draws a miner's first tick from the exponential distribution
    /// with its mean interval; a node without hash power gets no
    /// tick.
    fn initialize_mining_event<R: RandomnessSource>(
        &mut self,
        miner: usize,
        simulator: &mut Simulator,
        rand: &mut R,
    )
        requires
            old(self).wf(),
            old(simulator).wf(),
            old(simulator).inserted_events < u64::MAX,
            miner < old(self).ecs.num_of_nodes,
        ensures
            *final(self) == *old(self),
            final(simulator).wf(),
            final(simulator).simulation_time == old(simulator).simulation_time,
            queue_only_grows(old(simulator).queue_multiset(), final(simulator).queue_multiset()),
            match old(self).ecs.hash_power@[miner as int] {
                Some(h) => {
                    &&& final(simulator).inserted_events == old(simulator).inserted_events + 1
                    &&& exists|delay: u64|
                        final(simulator).queue_multiset() == old(
                            simulator,
                        ).queue_multiset().insert(
                            ScheduledEvent {
                                event: Event::BlockMining(BlockMiningProcess { miner }),
                                time: fire_time_of(old(simulator).simulation_time, delay),
                                number: old(simulator).inserted_events,
                            },
                        )
                },
                None => {
                    &&& final(simulator).inserted_events == old(simulator).inserted_events
                    &&& final(simulator).event_queue@ == old(simulator).event_queue@
                },
            },
    {
        match self.ecs.hash_power[miner] {
            None => {},
            Some(own_hash_power) => {
                let interval = self.resource.config.average_block_mining_interval;
                let total = self.resource.total_hash_power;
                proof {
                    assert((total as int) * (interval as int)
                        < 0x100000000000000000000000000000000) by (nonlinear_arith)
                        requires
                            total <= 0xffffffffffffffffu64,
                            interval <= 0xffffffffffffffffu64,
                    ;
                }
                let mean128: u128 = (total as u128) * (interval as u128) / (own_hash_power
                    as u128);
                let average_time_between_generation: u64 = if mean128 > (u64::MAX as u128) {
                    u64::MAX
                } else {
                    mean128 as u64
                };
                let time_to_next_generation = rand.exponential_delay(
                    average_time_between_generation,
                );
                let block_mining_process = crate::event::BlockMiningProcess::new(miner);
                simulator.put_event(
                    crate::event::Event::BlockMining(block_mining_process),
                    time_to_next_generation,
                );
            },
        }
    }
}

} // verus!
