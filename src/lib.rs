//! Validation of a chain of block headers against proof-of-work consensus rules,
//! producing a running chain-state summary.
pub mod block_time_tracker;
pub mod chain;
pub mod genesis_config;
pub mod target;

pub use block_time_tracker::RecentBlockTimeStamp;
pub use chain::{
    verify_genesis_block, verify_other_block, BlockHeader, BlockOut, PrevBlockContext,
    ValidationError,
};
