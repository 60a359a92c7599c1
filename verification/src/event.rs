//! The five event kinds the scheduler dispatches.

use crate::message::MessageType;
use vstd::prelude::*;

verus! {

/// Marks the simulated moment a block counts as confirmed at a node;
/// it carries no mutation and exists for observers.
#[derive(Debug, Clone, Copy, PartialEq, Eq, Structural)]
pub struct BlockConfirmationEvent {
    pub block_index: usize,
    pub node_index: usize,
}

impl BlockConfirmationEvent {
    pub fn new(block_index: usize, node_index: usize) -> (r: BlockConfirmationEvent)
        ensures
            r.block_index == block_index,
            r.node_index == node_index,
    {
        BlockConfirmationEvent { block_index, node_index }
    }
}

/// One tick of a miner's Poisson mining process.
#[derive(Debug, Clone, Copy, PartialEq, Eq, Structural)]
pub struct BlockMiningProcess {
    pub miner: usize,
}

impl BlockMiningProcess {
    pub fn new(miner: usize) -> (r: BlockMiningProcess)
        ensures
            r.miner == miner,
    {
        BlockMiningProcess { miner }
    }
}

/// Creation of a new (transaction-free) block at a node.
#[derive(Debug, Clone, Copy, PartialEq, Eq, Structural)]
pub struct GenerateBlockWithoutTxEvent {
    pub node: usize,
}

impl GenerateBlockWithoutTxEvent {
    pub fn new(node: usize) -> (r: GenerateBlockWithoutTxEvent)
        ensures
            r.node == node,
    {
        GenerateBlockWithoutTxEvent { node }
    }
}

/// Arrival of a gossip message about `block_index` at `node`, sent by
/// `from`.
#[derive(Debug, Clone, Copy, PartialEq, Eq, Structural)]
pub struct ReceiveEvent {
    pub block_index: usize,
    pub from: usize,
    pub node: usize,
    pub msg_type: MessageType,
}

impl ReceiveEvent {
    pub fn new(block_index: usize, from: usize, node: usize, msg_type: MessageType) -> (r:
        ReceiveEvent)
        ensures
            r.block_index == block_index,
            r.from == from,
            r.node == node,
            r.msg_type == msg_type,
    {
        ReceiveEvent { block_index, from, node, msg_type }
    }
}

/// A node's turn to push a gossip message about `block_index` out; for
/// inventory messages `from` is the predecessor to skip, for the other
/// kinds it is the single target.
#[derive(Debug, Clone, Copy, PartialEq, Eq, Structural)]
pub struct SendEvent {
    pub block_index: usize,
    pub from: usize,
    pub node: usize,
    pub msg_type: MessageType,
}

impl SendEvent {
    pub fn new(block_index: usize, from: usize, node: usize, msg_type: MessageType) -> (r:
        SendEvent)
        ensures
            r.block_index == block_index,
            r.from == from,
            r.node == node,
            r.msg_type == msg_type,
    {
        SendEvent { block_index, from, node, msg_type }
    }
}

/// The tagged union over the five concrete events; the scheduler loop
/// dispatches totally on it.
#[derive(Debug, Clone, Copy, PartialEq, Eq, Structural)]
pub enum Event {
    BlockConfirmation(BlockConfirmationEvent),
    BlockMining(BlockMiningProcess),
    GenerateBlockWithoutTx(GenerateBlockWithoutTxEvent),
    Receive(ReceiveEvent),
    Send(SendEvent),
}

} // verus!
