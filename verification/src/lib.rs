//! A discrete-event simulator core for Nakamoto-style blockchain
//! peer-to-peer networks: an event scheduler with deterministic
//! tie-breaking, a Bitcoin-like three-message gossip protocol engine
//! with bandwidth-shaped links, and per-node longest-chain consensus
//! over local block trees.
//!
//! Simulated time is a `u64` count of nanoseconds. All sampling
//! (latencies, mining delays, block sizes) reaches the engine through
//! the [`randomness::RandomnessSource`] trait, so every contract here
//! holds for every possible draw.

pub mod block;
pub mod block_factory;
pub mod connection;
pub mod consensus;
pub mod ecs;
pub mod event;
pub mod generate;
pub mod laws;
pub mod link;
pub mod local_block;
pub mod local_block_tree;
pub mod loggers;
pub mod message;
pub mod mining;
pub mod neighbors;
pub mod network;
pub mod node;
pub mod prepare;
pub mod randomness;
pub mod receive;
pub mod resource;
pub mod scenario;
pub mod scheduled_event;
pub mod send;
pub mod simulator;
