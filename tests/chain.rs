use bitcoin_header_chain::chain::{
    verify_genesis_block, verify_other_block, BlockHeader, BlockOut, ValidationError,
};
use bitcoin_header_chain::genesis_config::{GENESIS_HASH, MIN_TARGET};
use bitcoin_header_chain::target::get_new_target;

fn hash_bytes(display: &str) -> [u8; 32] {
    let mut out = [0u8; 32];
    for i in 0..32 {
        out[31 - i] = u8::from_str_radix(&display[2 * i..2 * i + 2], 16).unwrap();
    }
    out
}

fn genesis_header() -> BlockHeader {
    BlockHeader {
        version: 1,
        prev_blockhash: [0; 32],
        merkle_root: hash_bytes("4a5e1e4baab89f3a32518a88c31bc87f618f76673e2cc77ab2127b7afdeda33b"),
        time: 1231006505,
        bits: 0x1d00ffff,
        nonce: 2083236893,
    }
}

fn block_one_header() -> BlockHeader {
    BlockHeader {
        version: 1,
        prev_blockhash: hash_bytes(GENESIS_HASH),
        merkle_root: hash_bytes("0e3e2357e806b6cdb1f70b54c3a3a17b6714ee1f0e68bebb44a74b1efd512098"),
        time: 1231469665,
        bits: 0x1d00ffff,
        nonce: 2573394689,
    }
}

fn easy_state(prev_hash: [u8; 32], block_number: u32, bits: u32, window: [u32; 11]) -> BlockOut {
    let mut text = String::new();
    for b in prev_hash.iter().rev() {
        text.push_str(&format!("{:02x}", b));
    }
    BlockOut {
        block_number,
        target_compact: bits,
        block_hash: text,
        epoch_start_timestamp: 0,
        epoch_end_timestamp: 0,
        recent_block_timestamp: window,
    }
}

/// A header under the easiest target whose proof of work is met.
fn easy_header(time: u32) -> BlockHeader {
    let mut h = BlockHeader {
        version: 1,
        prev_blockhash: [7; 32],
        merkle_root: [3; 32],
        time,
        bits: 0x207fffff,
        nonce: 0,
    };
    loop {
        let prev = easy_state(h.prev_blockhash, 4, 0x207fffff, [0; 11]);
        match verify_other_block(h, prev) {
            Err(ValidationError::InvalidProofOfWork) => h.nonce += 1,
            _ => return h,
        }
    }
}

#[test]
fn test_get_new_target() {
    let first: u32 = 1457133956;
    let last: u32 = 1458291885;
    let prev_target: [u8; 32] = [
        0, 0, 0, 0, 0, 0, 0, 0, 6, 240, 168, 0, 0, 0, 0, 0, 0, 0, 0, 0, 0, 0, 0, 0, 0, 0, 0, 0,
        0, 0, 0, 0,
    ];
    let expected_target = 403088579;
    let new_target = get_new_target(prev_target, first, last);
    assert_eq!(new_target, expected_target)
}

#[test]
fn retarget_clamps_to_minimum_difficulty() {
    let mut t = [0u8; 32];
    t[4] = 0xff;
    t[5] = 0xff;
    // a slow period would ease past the minimum difficulty
    assert_eq!(get_new_target(t, 0, 10_000_000), MIN_TARGET);
    // the largest target overflows 256 bits when scaled up
    assert_eq!(get_new_target([0xff; 32], 0, 10_000_000), MIN_TARGET);
}

#[test]
fn retarget_clamps_fast_period_to_a_quarter() {
    let mut t = [0u8; 32];
    t[8] = 0x40;
    // 0x40 << 184 scaled by a quarter is 0x10 << 184: compact 0x18100000
    assert_eq!(get_new_target(t, 100, 100), 0x18100000);
    // a period of exactly the expected length leaves the target unchanged
    assert_eq!(get_new_target(t, 0, 1209600), 0x18400000);
}

#[test]
fn genesis_block_gives_initial_state() {
    let out = verify_genesis_block(genesis_header()).unwrap();
    assert_eq!(out.block_number, 0);
    assert_eq!(out.target_compact, 486604799);
    assert_eq!(out.block_hash, GENESIS_HASH);
    assert_eq!(out.epoch_start_timestamp, 1231006505);
    assert_eq!(out.epoch_end_timestamp, 1231006505);
    assert_eq!(out.recent_block_timestamp, [0, 0, 0, 0, 0, 0, 0, 0, 0, 0, 1231006505]);
}

#[test]
fn genesis_is_deterministic() {
    let a = verify_genesis_block(genesis_header()).unwrap();
    let b = verify_genesis_block(genesis_header()).unwrap();
    assert_eq!(a.block_hash, b.block_hash);
    assert_eq!(a.target_compact, b.target_compact);
    assert_eq!(a.recent_block_timestamp, b.recent_block_timestamp);
}

#[test]
fn genesis_mismatch_on_other_header() {
    let mut h = genesis_header();
    h.nonce += 1;
    assert!(matches!(verify_genesis_block(h), Err(ValidationError::GenesisMismatch)));
}

#[test]
fn first_block_extends_genesis() {
    let g = verify_genesis_block(genesis_header()).unwrap();
    let out = verify_other_block(block_one_header(), g).unwrap();
    assert_eq!(out.block_number, 1);
    assert_eq!(
        out.block_hash,
        "00000000839a8e6886ab5951d76f411475428afc90947ee320161bbf18eb6048"
    );
    assert_eq!(out.target_compact, 486604799);
    assert_eq!(out.epoch_start_timestamp, 1231006505);
    assert_eq!(out.recent_block_timestamp, [1231469665, 0, 0, 0, 0, 0, 0, 0, 0, 0, 0]);
}

#[test]
fn linkage_mismatch() {
    let g = verify_genesis_block(genesis_header()).unwrap();
    let mut h = block_one_header();
    h.prev_blockhash[0] ^= 1;
    assert!(matches!(verify_other_block(h, g), Err(ValidationError::LinkageMismatch)));
}

#[test]
fn invalid_proof_of_work() {
    let g = verify_genesis_block(genesis_header()).unwrap();
    let mut h = block_one_header();
    h.nonce += 1;
    assert!(matches!(verify_other_block(h, g), Err(ValidationError::InvalidProofOfWork)));
}

#[test]
fn difficulty_freeze_rejects_changed_target() {
    let h = easy_header(500);
    let prev = easy_state(h.prev_blockhash, 4, 0x1d00ffff, [0; 11]);
    assert!(matches!(
        verify_other_block(h, prev),
        Err(ValidationError::BadDifficultyAdjustment)
    ));
}

#[test]
fn difficulty_adjustment_checks_recomputed_target() {
    let h = easy_header(500);
    // block 2016 is an adjustment: the expected target is capped at the minimum
    // difficulty, which the easy header does not declare
    let prev = easy_state(h.prev_blockhash, 2015, 0x207fffff, [0; 11]);
    assert!(matches!(
        verify_other_block(h, prev),
        Err(ValidationError::BadDifficultyAdjustment)
    ));
}

#[test]
fn timestamp_too_old() {
    let h = easy_header(100);
    let prev = easy_state(h.prev_blockhash, 4, 0x207fffff, [100; 11]);
    assert!(matches!(verify_other_block(h, prev), Err(ValidationError::TimestampTooOld)));
    let prev = easy_state(h.prev_blockhash, 4, 0x207fffff, [99; 11]);
    let out = verify_other_block(h, prev).unwrap();
    assert_eq!(out.block_number, 5);
    assert_eq!(out.recent_block_timestamp, [100, 99, 99, 99, 99, 99, 99, 99, 99, 99, 99]);
}

#[test]
fn epoch_bookkeeping() {
    let h = easy_header(777);
    let prev = easy_state(h.prev_blockhash, 2014, 0x207fffff, [0; 11]);
    let out = verify_other_block(h, prev).unwrap();
    assert_eq!(out.epoch_end_timestamp, 777);
    assert_eq!(out.epoch_start_timestamp, 0);
}

#[test]
fn first_two_blocks_extend_genesis_in_order() {
    let g = verify_genesis_block(genesis_header()).unwrap();
    let one = verify_other_block(block_one_header(), g).unwrap();
    let two = BlockHeader {
        version: 1,
        prev_blockhash: hash_bytes("00000000839a8e6886ab5951d76f411475428afc90947ee320161bbf18eb6048"),
        merkle_root: hash_bytes("9b0fc92260312ce44e74ef369f5c66bbb85848f2eddd5a7a1cde251e54ccfdd5"),
        time: 1231469744,
        bits: 0x1d00ffff,
        nonce: 1639830024,
    };
    let out = verify_other_block(two, one).unwrap();
    assert_eq!(out.block_number, 2);
    assert_eq!(
        out.block_hash,
        "000000006a625f06636b8bb6ac7b960a8d03705d1ace08b1a19da3fdcc99ddbd"
    );
    assert_eq!(out.recent_block_timestamp, [1231469744, 1231469665, 0, 0, 0, 0, 0, 0, 0, 0, 0]);
}
