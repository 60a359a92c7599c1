//! Where the engine's random draws come from.
//!
//! All sampling reaches the simulator through [`RandomnessSource`],
//! whose methods promise nothing about their results: every contract
//! in the engine therefore holds for every possible draw. A real run
//! plugs in a seeded generator with the empirical distributions; the
//! in-crate [`SplitMixRandomness`] is a small deterministic
//! integer-only source.

use vstd::prelude::*;

verus! {

/// The random draws the engine needs, all over plain integers.
/// Times and delays are nanoseconds of simulated time; bandwidths are
/// bits per second; country codes are plain indices.
pub trait RandomnessSource {
    /// A draw to be used as an index; callers reduce it modulo the
    /// pool size, so a uniform draw below the bound passes through
    /// unchanged.
    fn sample_index(&mut self, bound: usize) -> usize;

    /// One-way propagation latency between two countries.
    fn latency_delay(&mut self, from_country: usize, to_country: usize) -> u64;

    /// A draw from the exponential distribution with the given mean.
    fn exponential_delay(&mut self, mean: u64) -> u64;

    /// A block size in bytes from the block-size distribution.
    fn block_size(&mut self) -> u64;

    /// A mining weight draw (mean-one exponential, scaled).
    fn block_weight(&mut self) -> u64;

    /// Upload bandwidth for a node in the given country.
    fn upload_bandwidth(&mut self, country: usize) -> u64;

    /// Download bandwidth for a node in the given country.
    fn download_bandwidth(&mut self, country: usize) -> u64;

    /// A raw hash-power draw from the miner hash-power distribution.
    fn hash_power(&mut self) -> u64;

    /// A country code from the node-region distribution.
    fn node_region(&mut self) -> usize;

    /// A country code from the miner-region distribution.
    fn miner_region(&mut self) -> usize;
}

/// Draws distinct entries from a pool of pairwise distinct values by
/// a partial shuffle: step `i` swaps a uniformly drawn remaining
/// entry into position `i`, and the draws are the first positions of
/// the permuted pool. With fewer pool entries than requested draws,
/// the whole pool is drawn.
pub fn sample_distinct_from_pool<R: RandomnessSource>(
    pool: &mut Vec<usize>,
    rand: &mut R,
    k: usize,
) -> (r: Vec<usize>)
    requires
        forall|i: int, j: int|
            0 <= i < j < old(pool)@.len() ==> (#[trigger] old(pool)@[i]) != #[trigger] old(
                pool,
            )@[j],
    ensures
        final(pool)@.len() == old(pool)@.len(),
        r@.len() == (if k <= old(pool)@.len() {
            k as int
        } else {
            old(pool)@.len() as int
        }),
        forall|i: int, j: int| 0 <= i < j < r@.len() ==> (#[trigger] r@[i]) != #[trigger] r@[j],
        forall|i: int| 0 <= i < r@.len() ==> old(pool)@.contains(#[trigger] r@[i]),
{
    let n = pool.len();
    let count = if k < n {
        k
    } else {
        n
    };
    let mut drawn: Vec<usize> = Vec::new();
    let mut i: usize = 0;
    while i < count
        invariant
            pool@.len() == n,
            count <= n,
            i <= count,
            drawn@ == pool@.subrange(0, i as int),
            forall|x: int, y: int|
                0 <= x < y < pool@.len() ==> (#[trigger] pool@[x]) != #[trigger] pool@[y],
            forall|x: int| 0 <= x < pool@.len() ==> old(pool)@.contains(#[trigger] pool@[x]),
        decreases count - i,
    {
        let remaining = n - i;
        let draw = rand.sample_index(remaining) % remaining;
        let pick = i + draw;
        let ghost before = pool@;
        let low = pool[i];
        let high = pool[pick];
        pool[i] = high;
        pool[pick] = low;
        proof {
            let after = pool@;
            assert forall|x: int, y: int|
                0 <= x < y < after.len() implies (#[trigger] after[x]) != #[trigger] after[y] by {
                assert(before[x] != before[y]);
                if x != i && x != pick {
                    assert(after[x] == before[x]);
                }
                if y != i && y != pick {
                    assert(after[y] == before[y]);
                }
            }
            assert forall|x: int| 0 <= x < after.len() implies old(pool)@.contains(
                #[trigger] after[x],
            ) by {
                if x != i && x != pick {
                    assert(after[x] == before[x]);
                }
            }
        }
        drawn.push(pool[i]);
        proof {
            assert(drawn@ =~= pool@.subrange(0, i + 1));
        }
        i = i + 1;
    }
    proof {
        assert forall|x: int, y: int| 0 <= x < y < drawn@.len() implies (#[trigger] drawn@[x])
            != #[trigger] drawn@[y] by {
            assert(drawn@[x] == pool@[x] && drawn@[y] == pool@[y]);
        }
        assert forall|x: int| 0 <= x < drawn@.len() implies old(pool)@.contains(
            #[trigger] drawn@[x],
        ) by {
            assert(drawn@[x] == pool@[x]);
        }
    }
    drawn
}

/// A deterministic, integer-only source built on the splitmix64
/// generator. Latencies and bandwidths are fixed round numbers and
/// the exponential draw returns its mean, so runs are easy to reason
/// about in tests; the index draws are uniform enough for topology
/// sampling.
#[derive(Debug, Clone)]
pub struct SplitMixRandomness {
    pub state: u64,
}

impl SplitMixRandomness {
    pub fn new(seed: u64) -> (r: SplitMixRandomness)
        ensures
            r.state == seed,
    {
        SplitMixRandomness { state: seed }
    }

    /// The next raw 64-bit draw.
    pub fn next_u64(&mut self) -> u64 {
        self.state = self.state.wrapping_add(0x9E3779B97F4A7C15);
        let mut z: u64 = self.state;
        z = (z ^ (z >> 30)).wrapping_mul(0xBF58476D1CE4E5B9);
        z = (z ^ (z >> 27)).wrapping_mul(0x94D049BB133111EB);
        z ^ (z >> 31)
    }
}

impl RandomnessSource for SplitMixRandomness {
    fn sample_index(&mut self, bound: usize) -> usize {
        if bound == 0 {
            return 0;
        }
        (self.next_u64() % (bound as u64)) as usize
    }

    fn latency_delay(&mut self, from_country: usize, to_country: usize) -> u64 {
        // 50 ms, plus a small spread by country pair.
        let base: u64 = 50_000_000;
        let spread: u64 = (((from_country as u64).wrapping_add(to_country as u64)) % 64)
            * 1_000_000;
        base + spread
    }

    fn exponential_delay(&mut self, mean: u64) -> u64 {
        mean
    }

    fn block_size(&mut self) -> u64 {
        // Around a megabyte, spread over a few fixed sizes.
        500_000 + (self.next_u64() % 8) * 100_000
    }

    fn block_weight(&mut self) -> u64 {
        1 + self.next_u64() % 3
    }

    fn upload_bandwidth(&mut self, _country: usize) -> u64 {
        // 4 Mbit/s.
        4_000_000
    }

    fn download_bandwidth(&mut self, _country: usize) -> u64 {
        // 25 Mbit/s.
        25_000_000
    }

    fn hash_power(&mut self) -> u64 {
        1 + self.next_u64() % 50
    }

    fn node_region(&mut self) -> usize {
        (self.next_u64() % 86) as usize
    }

    fn miner_region(&mut self) -> usize {
        (self.next_u64() % 86) as usize
    }
}

} // verus!
