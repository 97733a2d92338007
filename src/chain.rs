use vstd::prelude::*;
use vstd::string::StringExecFns;
use crate::block_time_tracker::{median_of, pushed_front, RecentBlockTimeStamp};
use crate::genesis_config::{
    DIFFICULTY_ADJUSTMENT_INTERVAL, EPOCH_END_INTERVAL, EPOCH_START_INTERVAL, GENESIS_HASH,
};
use crate::target::{
    compact_lossy, compact_of, get_new_target, le_val, retarget, target_from_bits,
    target_met_by, target_value,
};
use bitcoin::block::Version;
use bitcoin::{BlockHash, CompactTarget, TxMerkleNode};

verus! {

/// A block header as plain values; hashes are in internal (little-endian) byte order.
#[derive(Clone, Copy, Debug)]
pub struct BlockHeader {
    pub version: i32,
    pub prev_blockhash: [u8; 32],
    pub merkle_root: [u8; 32],
    pub time: u32,
    pub bits: u32,
    pub nonce: u32,
}

/// Chain-state summary after the most recently validated header. The running
/// total of floating-point difficulty is carried beside it by the caller.
#[derive(Clone, Debug)]
pub struct BlockOut {
    pub block_number: u32,
    pub target_compact: u32,
    pub block_hash: String,
    pub epoch_start_timestamp: u32,
    pub epoch_end_timestamp: u32,
    pub recent_block_timestamp: [u32; 11],
}

/// What the state before a header is: the trusted genesis, or an already
/// attested state serialised in `journal`.
#[derive(Clone, Debug)]
pub enum PrevBlockContext {
    Proof { journal: Vec<u8> },
    Block,
}

/// Why a header does not extend the chain.
#[derive(Clone, Copy, Debug, PartialEq, Eq, Structural)]
pub enum ValidationError {
    GenesisMismatch,
    LinkageMismatch,
    InvalidProofOfWork,
    BadDifficultyAdjustment,
    TimestampTooOld,
}

/// Double-SHA-256 of a header's 80-byte consensus encoding.
pub uninterp spec fn header_hash(
    version: i32,
    prev: Seq<u8>,
    merkle: Seq<u8>,
    time: u32,
    bits: u32,
    nonce: u32,
) -> Seq<u8>;

/// Lower-case hexadecimal digits.
pub open spec fn hex_digits() -> Seq<char> {
    seq!['0', '1', '2', '3', '4', '5', '6', '7', '8', '9', 'a', 'b', 'c', 'd', 'e', 'f']
}

/// Text of a block hash as displayed: two lower-case hex digits per byte, the
/// bytes in reverse order.
pub open spec fn hash_text(hash: Seq<u8>) -> Seq<char>
    decreases hash.len(),
{
    if hash.len() == 0 {
        Seq::empty()
    } else {
        let b = hash.last() as int;
        seq![hex_digits()[b / 16], hex_digits()[b % 16]] + hash_text(hash.drop_last())
    }
}

/// Relies on bitcoin's `Header::block_hash`: the header's hash, internal byte order.
#[verifier::external_body]
fn block_hash_of(h: &BlockHeader) -> (r: [u8; 32])
    ensures
        r@ == header_hash(h.version, h.prev_blockhash@, h.merkle_root@, h.time, h.bits, h.nonce),
{
    let header = bitcoin::block::Header {
        version: Version::from_consensus(h.version),
        prev_blockhash: <BlockHash as bitcoin::hashes::Hash>::from_byte_array(h.prev_blockhash),
        merkle_root: <TxMerkleNode as bitcoin::hashes::Hash>::from_byte_array(h.merkle_root),
        time: h.time,
        bits: CompactTarget::from_consensus(h.bits),
        nonce: h.nonce,
    };
    <BlockHash as bitcoin::hashes::Hash>::to_byte_array(header.block_hash())
}

/// Relies on the `Display` of bitcoin's `BlockHash`.
#[verifier::external_body]
fn hash_to_string(hash: [u8; 32]) -> (r: String)
    ensures
        r@ == hash_text(hash@),
{
    <BlockHash as bitcoin::hashes::Hash>::from_byte_array(hash).to_string()
}

/// The header's own hash.
pub open spec fn hash_of(h: BlockHeader) -> Seq<u8> {
    header_hash(h.version, h.prev_blockhash@, h.merkle_root@, h.time, h.bits, h.nonce)
}

/// The header's declared target, re-encoded in canonical compact form.
pub open spec fn declared_compact(h: BlockHeader) -> u32 {
    compact_of(target_value(h.bits))
}

/// The header's hash, read as an integer, does not exceed its declared target.
pub open spec fn pow_ok(h: BlockHeader) -> bool {
    le_val(hash_of(h)) <= target_value(h.bits)
}

/// The compact target a header extending `prev` must declare: recomputed at a
/// difficulty adjustment, otherwise the prior one.
pub open spec fn expected_compact(prev: BlockOut) -> u32 {
    let n = prev.block_number + 1;
    if n % (DIFFICULTY_ADJUSTMENT_INTERVAL as int) == 0 {
        retarget(
            target_value(prev.target_compact),
            prev.epoch_start_timestamp,
            prev.epoch_end_timestamp,
        )
    } else {
        prev.target_compact
    }
}

/// The outcome of the checks on a header extending `prev`, in their fixed order.
pub open spec fn next_outcome(h: BlockHeader, prev: BlockOut) -> Result<(), ValidationError> {
    if hash_text(h.prev_blockhash@) != prev.block_hash@ {
        Err(ValidationError::LinkageMismatch)
    } else if !pow_ok(h) {
        Err(ValidationError::InvalidProofOfWork)
    } else if declared_compact(h) != expected_compact(prev) {
        Err(ValidationError::BadDifficultyAdjustment)
    } else if h.time <= median_of(prev.recent_block_timestamp@) {
        Err(ValidationError::TimestampTooOld)
    } else {
        Ok(())
    }
}

/// `out` is the state after `h` extends `prev`.
pub open spec fn is_next_state(h: BlockHeader, prev: BlockOut, out: BlockOut) -> bool {
    let n = prev.block_number + 1;
    &&& out.block_number == n
    &&& out.target_compact == declared_compact(h)
    &&& out.block_hash@ == hash_text(hash_of(h))
    &&& out.epoch_start_timestamp == if n % (EPOCH_START_INTERVAL as int) == 0 {
        h.time
    } else {
        prev.epoch_start_timestamp
    }
    &&& out.epoch_end_timestamp == if n % (EPOCH_START_INTERVAL as int) != 0 && n % (
    EPOCH_END_INTERVAL as int) == 0 {
        h.time
    } else {
        prev.epoch_end_timestamp
    }
    &&& out.recent_block_timestamp@ == pushed_front(prev.recent_block_timestamp@, h.time)
}

/// The timestamp window right after genesis: ten zeros, then the genesis time
/// as the oldest entry.
pub open spec fn genesis_window(time: u32) -> Seq<u32> {
    Seq::new(10, |i: int| 0u32).push(time)
}

/// `out` is the state that the genesis header `h` establishes.
pub open spec fn is_genesis_state(h: BlockHeader, out: BlockOut) -> bool {
    &&& out.block_number == 0
    &&& out.target_compact == declared_compact(h)
    &&& out.block_hash@ == hash_text(hash_of(h))
    &&& out.epoch_start_timestamp == h.time
    &&& out.epoch_end_timestamp == h.time
    &&& out.recent_block_timestamp@ == genesis_window(h.time)
}

/// The retarget period's timestamps that a header extending `prev` is checked
/// against are in order wherever a difficulty adjustment is due.
pub open spec fn epoch_ordered(prev: BlockOut) -> bool {
    (prev.block_number + 1) % (DIFFICULTY_ADJUSTMENT_INTERVAL as int) == 0
        ==> prev.epoch_start_timestamp <= prev.epoch_end_timestamp
}

/// Starts the chain from the genesis header, whose hash must be the fixed
/// genesis hash.
pub fn verify_genesis_block(header: BlockHeader) -> (r: Result<BlockOut, ValidationError>)
    ensures
        r is Err <==> hash_text(hash_of(header)) != GENESIS_HASH@,
        r is Err ==> r == Err::<BlockOut, ValidationError>(ValidationError::GenesisMismatch),
        r is Ok ==> is_genesis_state(header, r->Ok_0),
{
    let hash = block_hash_of(&header);
    let block_hash = hash_to_string(hash);
    let genesis = String::from_str(GENESIS_HASH);
    if block_hash != genesis {
        return Err(ValidationError::GenesisMismatch);
    }
    let target = target_from_bits(header.bits);
    let t = header.time;
    let out = BlockOut {
        block_number: 0,
        target_compact: compact_lossy(target),
        block_hash,
        epoch_start_timestamp: t,
        epoch_end_timestamp: t,
        recent_block_timestamp: [0, 0, 0, 0, 0, 0, 0, 0, 0, 0, t],
    };
    assert(out.recent_block_timestamp@ =~= genesis_window(t));
    Ok(out)
}

/// Extends the chain by `header`, checking linkage, proof of work, the
/// difficulty rule and the median-time-past rule, in that order.
pub fn verify_other_block(header: BlockHeader, prev_block: BlockOut) -> (r: Result<
    BlockOut,
    ValidationError,
>)
    requires
        prev_block.block_number < u32::MAX,
        epoch_ordered(prev_block),
    ensures
        match next_outcome(header, prev_block) {
            Err(e) => r == Err::<BlockOut, ValidationError>(e),
            Ok(_) => r is Ok && is_next_state(header, prev_block, r->Ok_0),
        },
{
    let hash = block_hash_of(&header);
    let block_hash = hash_to_string(hash);

    let prev_hash = hash_to_string(header.prev_blockhash);
    if prev_block.block_hash != prev_hash {
        return Err(ValidationError::LinkageMismatch);
    }

    let declared_target = target_from_bits(header.bits);
    if !target_met_by(declared_target, hash) {
        return Err(ValidationError::InvalidProofOfWork);
    }

    let mut epoch_start_timestamp = prev_block.epoch_start_timestamp;
    let mut epoch_end_timestamp = prev_block.epoch_end_timestamp;
    let current_target_compact = compact_lossy(declared_target);
    let block_number = prev_block.block_number + 1;

    if block_number % DIFFICULTY_ADJUSTMENT_INTERVAL == 0 {
        let prior_target = target_from_bits(prev_block.target_compact);
        let expected_target = get_new_target(
            prior_target,
            epoch_start_timestamp,
            epoch_end_timestamp,
        );
        if current_target_compact != expected_target {
            return Err(ValidationError::BadDifficultyAdjustment);
        }
    } else if current_target_compact != prev_block.target_compact {
        return Err(ValidationError::BadDifficultyAdjustment);
    }

    if block_number % EPOCH_START_INTERVAL == 0 {
        epoch_start_timestamp = header.time;
    } else if block_number % EPOCH_END_INTERVAL == 0 {
        epoch_end_timestamp = header.time;
    }

    let mut recent_block_timestamp = RecentBlockTimeStamp::new(
        &prev_block.recent_block_timestamp,
    );
    let median_time = recent_block_timestamp.get_median_time();
    if header.time <= median_time {
        return Err(ValidationError::TimestampTooOld);
    }
    recent_block_timestamp.insert_timestamp(header.time);

    Ok(
        BlockOut {
            block_number,
            target_compact: current_target_compact,
            block_hash,
            epoch_start_timestamp,
            epoch_end_timestamp,
            recent_block_timestamp: recent_block_timestamp.output(),
        },
    )
}

/// Validating the same genesis header twice gives the same state: every field
/// is fixed by the header alone.
pub proof fn lemma_genesis_deterministic(h: BlockHeader, a: BlockOut, b: BlockOut)
    requires
        is_genesis_state(h, a),
        is_genesis_state(h, b),
    ensures
        a.block_number == b.block_number,
        a.target_compact == b.target_compact,
        a.block_hash@ == b.block_hash@,
        a.epoch_start_timestamp == b.epoch_start_timestamp,
        a.epoch_end_timestamp == b.epoch_end_timestamp,
        a.recent_block_timestamp@ == b.recent_block_timestamp@,
{
}

/// Along any sequence of accepted extensions, the block number grows by one per
/// header and the carried hash is always that of the latest header.
pub proof fn lemma_chain_monotonic(hs: Seq<BlockHeader>, states: Seq<BlockOut>)
    requires
        states.len() == hs.len() + 1,
        forall|i: int|
            0 <= i < hs.len() ==> #[trigger] is_next_state(hs[i], states[i], states[i + 1]),
    ensures
        forall|i: int|
            0 <= i < states.len() ==> #[trigger] states[i].block_number == states[0].block_number
                + i,
        forall|i: int|
            0 < i < states.len() ==> #[trigger] states[i].block_hash@ == hash_text(
                hash_of(hs[i - 1]),
            ),
    decreases hs.len(),
{
    if hs.len() > 0 {
        let k = hs.len() - 1;
        lemma_chain_monotonic(hs.take(k), states.take(k + 1));
        assert(is_next_state(hs[k], states[k], states[k + 1]));
        assert(states.take(k + 1)[0] == states[0]);
        assert(states.take(k + 1)[k] == states[k]);
        assert(states.take(k + 1)[k].block_number == states[0].block_number + k);
        assert forall|i: int| 0 <= i < states.len() implies #[trigger] states[i].block_number
            == states[0].block_number + i by {
            if i <= k {
                assert(states.take(k + 1)[i] == states[i]);
            }
        }
        assert forall|i: int| 0 < i < states.len() implies #[trigger] states[i].block_hash@
            == hash_text(hash_of(hs[i - 1])) by {
            if i <= k {
                assert(states.take(k + 1)[i] == states[i]);
                assert(hs.take(k)[i - 1] == hs[i - 1]);
            }
        }
    }
}

/// A header that passes linkage, proof of work and the difficulty rule but whose
/// time is not after the median of the prior window is rejected as too old.
pub proof fn lemma_timestamp_rejection(h: BlockHeader, prev: BlockOut)
    requires
        hash_text(h.prev_blockhash@) == prev.block_hash@,
        pow_ok(h),
        declared_compact(h) == expected_compact(prev),
        h.time <= median_of(prev.recent_block_timestamp@),
    ensures
        next_outcome(h, prev) == Err::<(), ValidationError>(ValidationError::TimestampTooOld),
{
}

/// Away from a difficulty adjustment, a linked header with valid proof of work
/// whose declared target differs from the prior one is rejected.
pub proof fn lemma_difficulty_freeze(h: BlockHeader, prev: BlockOut)
    requires
        (prev.block_number + 1) % (DIFFICULTY_ADJUSTMENT_INTERVAL as int) != 0,
        hash_text(h.prev_blockhash@) == prev.block_hash@,
        pow_ok(h),
        declared_compact(h) != prev.target_compact,
    ensures
        next_outcome(h, prev) == Err::<(), ValidationError>(
            ValidationError::BadDifficultyAdjustment,
        ),
{
}

} // verus!
