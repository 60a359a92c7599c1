use rand::rngs::StdRng;
use rand::{Rng, SeedableRng};
use rand_distr::{Distribution, Exp};
use rust_jabs::event::Event;
use rust_jabs::network::BitcoinNetwork;
use rust_jabs::randomness::RandomnessSource;
use rust_jabs::simulator::Simulator;

const SECOND: u64 = 1_000_000_000;

/// The randomness source a real run uses: a seeded generator with an
/// exponential distribution for the mining pacing.
struct SeededSource {
    rng: StdRng,
}

impl RandomnessSource for SeededSource {
    fn sample_index(&mut self, bound: usize) -> usize {
        if bound == 0 {
            0
        } else {
            self.rng.gen_range(0..bound)
        }
    }
    fn latency_delay(&mut self, _from_country: usize, _to_country: usize) -> u64 {
        50_000_000
    }
    fn exponential_delay(&mut self, mean: u64) -> u64 {
        if mean == 0 {
            return 0;
        }
        let exp = Exp::new(1.0f64 / (mean as f64)).unwrap();
        let sample: f64 = exp.sample(&mut self.rng);
        if sample < 0.0 {
            0
        } else if sample >= u64::MAX as f64 {
            u64::MAX
        } else {
            sample as u64
        }
    }
    fn block_size(&mut self) -> u64 {
        500_000
    }
    fn block_weight(&mut self) -> u64 {
        1
    }
    fn upload_bandwidth(&mut self, _country: usize) -> u64 {
        25_000_000
    }
    fn download_bandwidth(&mut self, _country: usize) -> u64 {
        25_000_000
    }
    fn hash_power(&mut self) -> u64 {
        1
    }
    fn node_region(&mut self) -> usize {
        0
    }
    fn miner_region(&mut self) -> usize {
        0
    }
}

#[test]
fn mining_intervals_follow_an_exponential_distribution() {
    // One miner whose mean interval is 100 seconds, run for a million
    // simulated seconds; the empirical inter-mining intervals must
    // pass a five percent Kolmogorov-Smirnov test against an
    // exponential distribution with mean 100.
    let mut rng = SeededSource { rng: StdRng::seed_from_u64(0) };
    let mean = 100 * SECOND;
    let mut network = BitcoinNetwork::new_with_size(1, 16384, mean, 1, 0, 225, 1);
    network.prepare(&mut rng, mean, 0, 1).unwrap();
    let mut sim = Simulator::new();
    network.insert_initial_event(&mut sim, &mut rng);

    let stop = 1_000_000 * SECOND;
    let mut tick_times: Vec<u64> = Vec::new();
    loop {
        let (time, ev) = match sim.peek_event() {
            None => break,
            Some(se) => {
                if se.time() > stop {
                    break;
                }
                (se.time(), se.event)
            }
        };
        if matches!(ev, Event::BlockMining(_)) {
            tick_times.push(time);
        }
        sim.execute_next_event(&mut network, &mut rng);
    }

    assert!(tick_times.len() > 5000, "too few samples: {}", tick_times.len());
    let mut intervals: Vec<f64> = tick_times
        .windows(2)
        .map(|w| (w[1] - w[0]) as f64 / SECOND as f64)
        .collect();
    intervals.sort_by(|a, b| a.partial_cmp(b).unwrap());

    let n = intervals.len() as f64;
    let lambda = 1.0f64 / 100.0;
    let mut d_max = 0.0f64;
    for (i, x) in intervals.iter().enumerate() {
        let cdf = 1.0 - (-lambda * x).exp();
        let above = (i as f64 + 1.0) / n - cdf;
        let below = cdf - (i as f64) / n;
        if above > d_max {
            d_max = above;
        }
        if below > d_max {
            d_max = below;
        }
    }
    // Five percent significance threshold for the one-sample test.
    let threshold = 1.36 / n.sqrt();
    assert!(
        d_max < threshold,
        "KS distance {} exceeds the five percent threshold {}",
        d_max,
        threshold
    );
}
