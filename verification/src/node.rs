//! The per-node components of the network.

use std::collections::HashMap;
use vstd::prelude::*;

verus! {

/// Name of a node.
#[derive(Debug, Clone)]
pub struct NodeName {
    pub name: String,
}

/// Indices of the neighbors of a node.
#[derive(Debug, Clone)]
pub struct Neighbors(pub Vec<usize>);

/// Marker for the connection status component.
#[derive(Debug, Clone, Copy)]
pub struct Connected;

/// One direction of a node's network attachment: a serializing pipe
/// with a fixed bandwidth (bits per second) and the simulated instant
/// its last accepted transfer finishes.
#[derive(Debug, Clone, Copy)]
pub struct Link {
    pub bandwidth: u64,
    pub latest_loaded_time_done: u64,
}

impl Default for Link {
    fn default() -> (r: Link)
        ensures
            r.bandwidth == 1,
            r.latest_loaded_time_done == 0,
    {
        Link { bandwidth: 1, latest_loaded_time_done: 0 }
    }
}

/// Uplink data of a node.
#[derive(Debug, Clone, Copy)]
pub struct Uplink {
    pub link: Link,
}

/// Downlink data of a node.
#[derive(Debug, Clone, Copy)]
pub struct Downlink {
    pub link: Link,
}

/// What a node has seen of each block id: the value is true once the
/// block's payload has arrived (not just its announcement).
#[derive(Debug)]
pub struct AlreadySeenBlocks(pub HashMap<usize, bool>);

/// Kind of a node.
#[derive(Debug, Clone, Copy)]
pub enum NodeType {
    IsBitcoin,
    IsEthereum,
}

} // verus!
