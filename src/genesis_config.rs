use vstd::prelude::*;

verus! {

/// Hash of the genesis block, as displayed (byte-reversed hex).
pub const GENESIS_HASH: &'static str = "000000000019d6689c085ae165831e934ff763ae46a2a6c172b3f1b60a8ce26f";

/// Easiest allowed target, in compact form.
pub const MIN_TARGET: u32 = 0x1d00ffff;

/// Expected duration of one retarget period, in seconds.
pub const EXPECTED_BLOCK_TIME: u32 = 1209600;

/// Number of blocks between two difficulty adjustments.
pub const DIFFICULTY_ADJUSTMENT_INTERVAL: u32 = 2016;

/// A block whose number is a multiple of this opens a retarget period.
pub const EPOCH_START_INTERVAL: u32 = 2016;

/// A block whose number is a multiple of this closes a retarget period.
pub const EPOCH_END_INTERVAL: u32 = 2015;

} // verus!
