//! Consensus bridge between a proof-of-work chain and the committed ledger
//! of a proof-of-stake chain, with the request/response correlation used to
//! fetch proof-of-stake blocks from peers.

pub mod block_retrieval;
pub mod events;
pub mod executive;
pub mod hash;
pub mod memory_ledger;
pub mod pos_handler;
pub mod pos_state_config;
pub mod rpc;
pub mod storage;
pub mod sync;
