use vstd::prelude::*;
use vstd::arithmetic::power2::pow2;
use vstd::arithmetic::div_mod::{lemma_fundamental_div_mod, lemma_hoist_over_denominator};
use crate::genesis_config::{EXPECTED_BLOCK_TIME, MIN_TARGET};
use bitcoin::{BlockHash, CompactTarget, Target};
use ethnum::U256;

verus! {

/// `256^n`.
pub open spec fn pow256(n: nat) -> nat
    decreases n,
{
    if n == 0 {
        1
    } else {
        256 * pow256((n - 1) as nat)
    }
}

/// Largest value a 256-bit integer can hold, plus one.
pub open spec fn u256_bound() -> nat {
    pow256(32)
}

/// Value of bytes read as a big-endian unsigned integer.
pub open spec fn be_val(s: Seq<u8>) -> nat
    decreases s.len(),
{
    if s.len() == 0 {
        0
    } else {
        (be_val(s.drop_last()) * 256 + s.last()) as nat
    }
}

/// Value of bytes read as a little-endian unsigned integer.
pub open spec fn le_val(s: Seq<u8>) -> nat
    decreases s.len(),
{
    if s.len() == 0 {
        0
    } else {
        (s[0] + 256 * le_val(s.drop_first())) as nat
    }
}

/// Number of significant bytes of `v`.
pub open spec fn byte_len(v: nat) -> nat
    decreases v,
{
    if v == 0 {
        0
    } else {
        1 + byte_len(v / 256)
    }
}

/// The three-byte mantissa of `v`, before the sign-bit adjustment.
pub open spec fn raw_mantissa(v: nat) -> nat {
    let size = byte_len(v);
    if size <= 3 {
        v * pow256((3 - size) as nat)
    } else {
        v / pow256((size - 3) as nat)
    }
}

/// Compact encoding of a target, rounding the value down to three significant
/// bytes; a mantissa with its top bit set is shifted one byte right.
pub open spec fn compact_of(v: nat) -> u32 {
    let size = byte_len(v);
    let m = raw_mantissa(v);
    if m >= 0x80_0000 {
        (m / 256 + (size + 1) * 0x100_0000) as u32
    } else {
        (m + size * 0x100_0000) as u32
    }
}

/// The target that a compact encoding decodes to: a 23-bit mantissa scaled by
/// a power of 256, the shift wrapping modulo 256 bits and the result truncated
/// to 256 bits; a mantissa with its sign bit set decodes to zero.
pub open spec fn target_value(bits: u32) -> nat {
    let e = bits as nat / 0x100_0000;
    let m = bits as nat % 0x100_0000;
    let mant = if e <= 3 {
        m / pow256((3 - e) as nat)
    } else {
        m
    };
    let shift = if e <= 3 {
        0
    } else {
        (8 * (e - 3)) as nat % 256
    };
    if mant > 0x7f_ffff {
        0
    } else {
        (mant * pow2(shift)) % u256_bound()
    }
}

/// Retarget period length after clamping to a quarter and four times the
/// expected duration.
pub open spec fn clamped_span(first: u32, last: u32) -> nat {
    let e = EXPECTED_BLOCK_TIME as nat;
    let d = (last - first) as nat;
    if d < e / 4 {
        e / 4
    } else if d > 4 * e {
        4 * e
    } else {
        d
    }
}

/// The prior target's value scaled by the clamped period length over the
/// expected one, rounded down.
pub open spec fn scaled_target(prior: nat, first: u32, last: u32) -> nat {
    prior * clamped_span(first, last) / (EXPECTED_BLOCK_TIME as nat)
}

/// The compact form of a scaled target, never easier than the minimum
/// difficulty.
pub open spec fn capped_compact(v: nat) -> u32 {
    if v >= u256_bound() {
        MIN_TARGET
    } else if compact_of(v) > MIN_TARGET {
        MIN_TARGET
    } else {
        compact_of(v)
    }
}

/// The compact target owed after a retarget period, from the prior target's
/// value and the period's first and last timestamps.
pub open spec fn retarget(prior: nat, first: u32, last: u32) -> u32 {
    capped_compact(scaled_target(prior, first, last))
}

/// Relies on ethnum's `U256` division: the big-endian quotient.
#[verifier::external_body]
fn be_div(b: [u8; 32], d: u32) -> (r: [u8; 32])
    requires
        d > 0,
    ensures
        be_val(r@) == be_val(b@) / (d as nat),
{
    (U256::from_be_bytes(b) / U256::from(d)).to_be_bytes()
}

/// Relies on ethnum's `U256` remainder.
#[verifier::external_body]
fn be_rem(b: [u8; 32], d: u32) -> (r: u32)
    requires
        d > 0,
    ensures
        r as nat == be_val(b@) % (d as nat),
{
    (U256::from_be_bytes(b) % U256::from(d)).as_u32()
}

/// Relies on ethnum's `U256::checked_mul`: `None` exactly on overflow.
#[verifier::external_body]
fn be_checked_mul(b: [u8; 32], f: u32) -> (r: Option<[u8; 32]>)
    ensures
        match r {
            Some(x) => be_val(x@) == be_val(b@) * f,
            None => be_val(b@) * f >= u256_bound(),
        },
{
    U256::from_be_bytes(b).checked_mul(U256::from(f)).map(|x| x.to_be_bytes())
}

/// Relies on ethnum's `U256::checked_add`: `None` exactly on overflow.
#[verifier::external_body]
fn be_checked_add(b: [u8; 32], x: u32) -> (r: Option<[u8; 32]>)
    ensures
        match r {
            Some(y) => be_val(y@) == be_val(b@) + x,
            None => be_val(b@) + x >= u256_bound(),
        },
{
    U256::from_be_bytes(b).checked_add(U256::from(x)).map(|y| y.to_be_bytes())
}

/// Relies on bitcoin's `Target::to_compact_lossy` on a big-endian target.
#[verifier::external_body]
pub(crate) fn compact_lossy(b: [u8; 32]) -> (r: u32)
    ensures
        r == compact_of(be_val(b@)),
{
    Target::from_be_bytes(b).to_compact_lossy().to_consensus()
}

/// Relies on bitcoin's `Target::from_compact`: the decoded target, big-endian.
#[verifier::external_body]
pub(crate) fn target_from_bits(bits: u32) -> (r: [u8; 32])
    ensures
        be_val(r@) == target_value(bits),
{
    Target::from_compact(CompactTarget::from_consensus(bits)).to_be_bytes()
}

/// Relies on bitcoin's `Target::is_met_by`: the hash, read little-endian, is at
/// most the target.
#[verifier::external_body]
pub(crate) fn target_met_by(target: [u8; 32], hash: [u8; 32]) -> (r: bool)
    ensures
        r == (le_val(hash@) <= be_val(target@)),
{
    Target::from_be_bytes(target).is_met_by(<BlockHash as bitcoin::hashes::Hash>::from_byte_array(hash))
}

/// A value read from `n` bytes is below `256^n`.
pub proof fn lemma_be_val_bound(s: Seq<u8>)
    ensures
        be_val(s) < pow256(s.len()),
    decreases s.len(),
{
    if s.len() > 0 {
        lemma_be_val_bound(s.drop_last());
        assert(be_val(s) < pow256(s.len())) by (nonlinear_arith)
            requires
                be_val(s) == be_val(s.drop_last()) * 256 + s.last(),
                be_val(s.drop_last()) < pow256(s.drop_last().len()),
                pow256(s.len()) == 256 * pow256(s.drop_last().len()),
                s.last() < 256,
        ;
    }
}

proof fn lemma_split_quotient(t: nat, q: nat, rm: nat, span: nat, e: nat)
    requires
        e > 0,
        t == q * e + rm,
    ensures
        t * span / e == q * span + rm * span / e,
{
    assert(t * span == (rm * span) + (q * span) * e) by (nonlinear_arith)
        requires
            t == q * e + rm,
    ;
    lemma_hoist_over_denominator((rm * span) as int, (q * span) as int, e);
}

proof fn lemma_small_product(rm: u32, diff: u32)
    requires
        rm < EXPECTED_BLOCK_TIME,
        diff <= 4 * EXPECTED_BLOCK_TIME,
    ensures
        (rm as int) * (diff as int) < 0x1_0000_0000_0000,
        (rm as int) * (diff as int) / (EXPECTED_BLOCK_TIME as int) < 4 * EXPECTED_BLOCK_TIME,
{
    assert((rm as int) * (diff as int) < 0x1_0000_0000_0000) by (nonlinear_arith)
        requires
            rm < 1209600,
            diff <= 4838400,
    ;
    assert((rm as int) * (diff as int) / 1209600 < 4838400) by (nonlinear_arith)
        requires
            rm < 1209600,
            diff <= 4838400,
    ;
}

/// The compact target owed at a difficulty adjustment: the prior target scaled
/// by the clamped period length over the expected one, never easier than the
/// minimum difficulty. The product is formed without overflow.
pub fn get_new_target(current_target: [u8; 32], first_block: u32, last_block: u32) -> (r: u32)
    requires
        first_block <= last_block,
    ensures
        r == retarget(be_val(current_target@), first_block, last_block),
{
    let mut diff: u32 = last_block - first_block;
    if diff < EXPECTED_BLOCK_TIME / 4 {
        diff = EXPECTED_BLOCK_TIME / 4;
    }
    if diff > 4 * EXPECTED_BLOCK_TIME {
        diff = 4 * EXPECTED_BLOCK_TIME;
    }
    assert(diff as nat == clamped_span(first_block, last_block));
    let q = be_div(current_target, EXPECTED_BLOCK_TIME);
    let rm = be_rem(current_target, EXPECTED_BLOCK_TIME);
    proof {
        lemma_fundamental_div_mod(be_val(current_target@) as int, EXPECTED_BLOCK_TIME as int);
        lemma_split_quotient(
            be_val(current_target@),
            be_val(q@),
            rm as nat,
            diff as nat,
            EXPECTED_BLOCK_TIME as nat,
        );
        lemma_small_product(rm, diff);
    }
    let extra: u64 = (rm as u64) * (diff as u64) / (EXPECTED_BLOCK_TIME as u64);
    let ghost v = scaled_target(be_val(current_target@), first_block, last_block);
    assert(v == be_val(q@) * diff + extra);
    let scaled = match be_checked_mul(q, diff) {
        Some(x) => x,
        None => {
            return MIN_TARGET;
        },
    };
    let value = match be_checked_add(scaled, extra as u32) {
        Some(x) => x,
        None => {
            return MIN_TARGET;
        },
    };
    let target = compact_lossy(value);
    proof {
        lemma_be_val_bound(value@);
        assert(be_val(value@) == v);
    }
    if target > MIN_TARGET {
        return MIN_TARGET;
    }
    target
}

} // verus!
