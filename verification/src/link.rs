//! The serializing link model.
//!
//! A link carries one transfer at a time: a transfer starting at
//! `now` begins when the previous one finishes (or at `now`, if the
//! link is idle) and occupies the link for `bytes * 8 / bandwidth`
//! seconds. The link's clock never rewinds.

use crate::node::Downlink;
use crate::node::Link;
use crate::node::Uplink;
use crate::randomness::RandomnessSource;
use crate::simulator::Simulator;
use vstd::prelude::*;

verus! {

pub const BITS_PER_BYTE: u64 = 8;

pub const NANOS_PER_SECOND: u64 = 1_000_000_000;

/// Error of the bandwidth assignment: a sampled distribution handed
/// back an impossible value.
#[derive(Debug, Clone, Copy, PartialEq, Eq, Structural)]
pub enum DistributionError {
    ZeroBandwidth,
    ZeroHashPower,
}

/// Nanoseconds a transfer of `size` bytes occupies a link of
/// `bandwidth` bits per second, saturating at the largest instant.
pub open spec fn loading_time_of(size: u64, bandwidth: u64) -> u64
    recommends
        bandwidth >= 1,
{
    let t = (size * BITS_PER_BYTE * NANOS_PER_SECOND) as int / bandwidth as int;
    if t > u64::MAX {
        u64::MAX
    } else {
        t as u64
    }
}

/// When a transfer arriving at `now` starts on the link.
pub open spec fn link_start(link: Link, now: u64) -> u64 {
    if link.latest_loaded_time_done >= now {
        link.latest_loaded_time_done
    } else {
        now
    }
}

/// When a transfer of `size` bytes arriving at `now` finishes,
/// saturating at the largest instant.
pub open spec fn link_finish(link: Link, now: u64, size: u64) -> u64 {
    let start = link_start(link, now);
    let loading = loading_time_of(size, link.bandwidth);
    if start + loading > u64::MAX {
        u64::MAX
    } else {
        (start + loading) as u64
    }
}

/// Bills the link for a transfer of `size` bytes arriving now and
/// returns how long the caller must wait for it: the link's busy
/// horizon advances to the transfer's finish, and never moves
/// backward.
pub fn remaining_time_to_load(link: &mut Link, simulator: &Simulator, size: u64) -> (r: u64)
    requires
        old(link).bandwidth >= 1,
    ensures
        final(link).bandwidth == old(link).bandwidth,
        final(link).latest_loaded_time_done == link_finish(
            *old(link),
            simulator.simulation_time,
            size,
        ),
        final(link).latest_loaded_time_done >= old(link).latest_loaded_time_done,
        final(link).latest_loaded_time_done >= simulator.simulation_time,
        r == final(link).latest_loaded_time_done - simulator.simulation_time,
{
    let bits: u128 = (size as u128) * 8_000_000_000u128;
    proof {
        assert(bits == size * BITS_PER_BYTE * NANOS_PER_SECOND);
    }
    let quotient: u128 = bits / (link.bandwidth as u128);
    let loading_time: u64 = if quotient > (u64::MAX as u128) {
        u64::MAX
    } else {
        quotient as u64
    };
    let start_time: u64 = if link.latest_loaded_time_done >= simulator.simulation_time {
        link.latest_loaded_time_done
    } else {
        simulator.simulation_time
    };
    let end_time: u64 = if loading_time > u64::MAX - start_time {
        u64::MAX
    } else {
        start_time + loading_time
    };
    link.latest_loaded_time_done = end_time;
    end_time - simulator.simulation_time
}

/// Links are first-in-first-out: two transfers billed back to back
/// occupy the link for at least the sum of their loading times, so
/// the second finishes no earlier than `now` plus both loads.
pub proof fn lemma_link_fifo(link: Link, now: u64, size1: u64, size2: u64)
    requires
        link.bandwidth >= 1,
        link_start(link, now) + loading_time_of(size1, link.bandwidth) + loading_time_of(
            size2,
            link.bandwidth,
        ) <= u64::MAX,
    ensures
        ({
            let first = link_finish(link, now, size1);
            let after_first = Link { bandwidth: link.bandwidth, latest_loaded_time_done: first };
            let second = link_finish(after_first, now, size2);
            second >= now + loading_time_of(size1, link.bandwidth) + loading_time_of(
                size2,
                link.bandwidth,
            )
        }),
{
    let first = link_finish(link, now, size1);
    assert(first == link_start(link, now) + loading_time_of(size1, link.bandwidth));
    assert(first >= now);
}

/// Samples an uplink and a downlink bandwidth for every node from the
/// country-conditioned distributions. A zero sample is a distribution
/// error and aborts the assignment.
pub fn assign_all_bandwidths<R: RandomnessSource>(
    uplink: &mut Vec<Uplink>,
    downlink: &mut Vec<Downlink>,
    country: &Vec<usize>,
    rand: &mut R,
    size: usize,
) -> (r: Result<(), DistributionError>)
    requires
        old(uplink)@.len() == size,
        old(downlink)@.len() == size,
        country@.len() == size,
    ensures
        final(uplink)@.len() == size,
        final(downlink)@.len() == size,
        forall|i: int|
            0 <= i < size ==> (#[trigger] final(uplink)@[i]).link.latest_loaded_time_done == old(
                uplink,
            )@[i].link.latest_loaded_time_done,
        forall|i: int|
            0 <= i < size ==> (#[trigger] final(downlink)@[i]).link.latest_loaded_time_done == old(
                downlink,
            )@[i].link.latest_loaded_time_done,
        r is Ok ==> forall|i: int|
            0 <= i < size ==> (#[trigger] final(uplink)@[i]).link.bandwidth >= 1,
        r is Ok ==> forall|i: int|
            0 <= i < size ==> (#[trigger] final(downlink)@[i]).link.bandwidth >= 1,
        r is Err ==> exists|stop: int|
            #![trigger final(uplink)@[stop]]
            {
                &&& 0 <= stop < size
                &&& forall|i: int|
                    0 <= i < stop ==> (#[trigger] final(uplink)@[i]).link.bandwidth >= 1
                &&& forall|i: int|
                    0 <= i < stop ==> (#[trigger] final(downlink)@[i]).link.bandwidth >= 1
                &&& forall|i: int|
                    stop <= i < size ==> (#[trigger] final(uplink)@[i]) == old(uplink)@[i]
                &&& forall|i: int|
                    stop <= i < size ==> (#[trigger] final(downlink)@[i]) == old(downlink)@[i]
            },
{
    let mut i: usize = 0;
    while i < size
        invariant
            uplink@.len() == size,
            downlink@.len() == size,
            country@.len() == size,
            i <= size,
            forall|k: int| 0 <= k < i ==> (#[trigger] uplink@[k]).link.bandwidth >= 1,
            forall|k: int| 0 <= k < i ==> (#[trigger] downlink@[k]).link.bandwidth >= 1,
            forall|k: int|
                0 <= k < size ==> (#[trigger] uplink@[k]).link.latest_loaded_time_done == old(
                    uplink,
                )@[k].link.latest_loaded_time_done,
            forall|k: int|
                0 <= k < size ==> (#[trigger] downlink@[k]).link.latest_loaded_time_done == old(
                    downlink,
                )@[k].link.latest_loaded_time_done,
            forall|k: int| i <= k < size ==> (#[trigger] uplink@[k]) == old(uplink)@[k],
            forall|k: int| i <= k < size ==> (#[trigger] downlink@[k]) == old(downlink)@[k],
        decreases size - i,
    {
        let up = rand.upload_bandwidth(country[i]);
        let down = rand.download_bandwidth(country[i]);
        if up == 0 || down == 0 {
            proof {
                assert(exists|stop: int|
                    #![trigger uplink@[stop]]
                    {
                        &&& 0 <= stop < size
                        &&& forall|k: int|
                            0 <= k < stop ==> (#[trigger] uplink@[k]).link.bandwidth >= 1
                        &&& forall|k: int|
                            0 <= k < stop ==> (#[trigger] downlink@[k]).link.bandwidth >= 1
                        &&& forall|k: int|
                            stop <= k < size ==> (#[trigger] uplink@[k]) == old(uplink)@[k]
                        &&& forall|k: int|
                            stop <= k < size ==> (#[trigger] downlink@[k]) == old(downlink)@[k]
                    }) by {
                    assert(uplink@[i as int] == old(uplink)@[i as int]);
                }
            }
            return Err(DistributionError::ZeroBandwidth);
        }
        // Only the bandwidth is reassigned: the busy horizon of an
        // already exercised link stays where it was.
        let new_up = Uplink {
            link: Link {
                bandwidth: up,
                latest_loaded_time_done: uplink[i].link.latest_loaded_time_done,
            },
        };
        let new_down = Downlink {
            link: Link {
                bandwidth: down,
                latest_loaded_time_done: downlink[i].link.latest_loaded_time_done,
            },
        };
        uplink[i] = new_up;
        downlink[i] = new_down;
        proof {
            assert(uplink@[i as int].link.bandwidth >= 1);
            assert(downlink@[i as int].link.bandwidth >= 1);
        }
        i = i + 1;
        proof {
            assert forall|k: int| 0 <= k < i implies (#[trigger] uplink@[k]).link.bandwidth
                >= 1 by {
                if k < i - 1 {
                    assert(uplink@[k].link.bandwidth >= 1);
                }
            }
        }
    }
    Ok(())
}

} // verus!
