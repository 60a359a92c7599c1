//! Gossip message kinds and their wire sizes.

use crate::block::BitcoinBlock;
use vstd::prelude::*;

verus! {

/// A 4-byte type tag plus a 32-byte hash.
pub const BITCOIN_INV_SIZE: u64 = 36;

/// Extra bytes a request-data message carries beyond the inventory.
pub const GET_DATA_OVERHEAD: u64 = 4;

/// Extra bytes an inventory announcement carries.
pub const INV_MESSAGE_OVERHEAD: u64 = 1;

/// What a gossip message is about.
#[derive(Debug, Clone, Copy, PartialEq, Eq, Structural, Hash)]
pub enum DataType {
    IsBlock,
    IsTx,
}

/// The three Bitcoin gossip message kinds (announce, request,
/// deliver), plus a vote kind unused by the Bitcoin protocol.
#[derive(Debug, Clone, Copy, PartialEq, Eq, Structural, Hash)]
pub enum MessageType {
    DataMessage(DataType),
    InvMessage(DataType),
    RequestDataMessage(DataType),
    VoteMessage,
}

/// Wire size in bytes of a message about block `block_index`.
pub open spec fn spec_message_size(m: MessageType, blocks: Seq<BitcoinBlock>, block_index: int) -> u64 {
    match m {
        MessageType::DataMessage(dt) => match dt {
            DataType::IsBlock => blocks[block_index].size,
            DataType::IsTx => 1u64,
        },
        MessageType::InvMessage(_) => (BITCOIN_INV_SIZE + INV_MESSAGE_OVERHEAD) as u64,
        MessageType::RequestDataMessage(_) => (BITCOIN_INV_SIZE + GET_DATA_OVERHEAD) as u64,
        MessageType::VoteMessage => 0u64,
    }
}

impl MessageType {
    pub fn get_size(&self, block_index: usize, blocks: &Vec<BitcoinBlock>) -> (r: u64)
        requires
            block_index < blocks@.len(),
        ensures
            r == spec_message_size(*self, blocks@, block_index as int),
    {
        match self {
            MessageType::DataMessage(dt) => Self::bitcoin_data_size(dt, block_index, blocks),
            MessageType::InvMessage(_) => Self::bitcoin_inv_size(),
            MessageType::RequestDataMessage(_) => Self::bitcoin_request_data_size(),
            MessageType::VoteMessage => 0u64,
        }
    }

    fn bitcoin_data_size(data_type: &DataType, block_index: usize, blocks: &Vec<BitcoinBlock>) -> (r: u64)
        requires
            block_index < blocks@.len(),
        ensures
            r == spec_message_size(MessageType::DataMessage(*data_type), blocks@, block_index as int),
    {
        match data_type {
            DataType::IsBlock => blocks[block_index].size,
            DataType::IsTx => 1u64,
        }
    }

    pub fn bitcoin_inv_size() -> (r: u64)
        ensures
            r == BITCOIN_INV_SIZE + INV_MESSAGE_OVERHEAD,
    {
        BITCOIN_INV_SIZE + INV_MESSAGE_OVERHEAD
    }

    pub fn bitcoin_request_data_size() -> (r: u64)
        ensures
            r == BITCOIN_INV_SIZE + GET_DATA_OVERHEAD,
    {
        BITCOIN_INV_SIZE + GET_DATA_OVERHEAD
    }
}

} // verus!
