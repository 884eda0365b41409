//! Claims on the boost pool: one payout per claim index and epoch, against
//! a merkle path to the bound root.

use vstd::prelude::*;
use crate::codec::{
    le_bytes, lemma_le_bytes_injective, lemma_le_bytes_len, lemma_pow256_widths, push_bytes,
    push_le,
};
use crate::error::VaultError;
use crate::hash::{keccak256, keccak256_collision, keccak256_digest, nodes_equal};
use crate::math::{
    lemma_mul_div_floor_bounds, lemma_mul_div_floor_monotonic, mul_div_floor, mul_div_u64,
};
use crate::merkle::{
    compute_root, lemma_same_root_needs_collision, merkle_root, pair_preimage, MAX_PROOF_NODES,
};
use crate::state::{BoostDistributor, ClaimBitmap256, Pubkey};

verus! {

/// The domain tag of a leaf, the ASCII bytes of `weight`: it keeps the
/// leaves apart from whatever else is hashed with Keccak-256.
pub const LEAF_TAG: [u8; 6] = [0x77, 0x65, 0x69, 0x67, 0x68, 0x74];

/// The 58 bytes hashed for a leaf: the tag, the index in 4 bytes, the
/// claimer, and the weight in 16 bytes, both integers little-endian.
pub open spec fn leaf_preimage(index: u32, claimer: Pubkey, weight: u128) -> Seq<u8> {
    LEAF_TAG@ + le_bytes(index as nat, 4) + claimer@ + le_bytes(weight as nat, 16)
}

/// The leaf of a claimer: the digest of [`leaf_preimage`].
pub open spec fn leaf_node(index: u32, claimer: Pubkey, weight: u128) -> [u8; 32] {
    keccak256_digest(leaf_preimage(index, claimer, weight))
}

/// What a claim of `weight` is paid: its share of the boost collected,
/// rounded down.
pub open spec fn payout_of(boost_total: u64, weight: u128, total_weight: u128) -> nat {
    mul_div_floor(boost_total as nat, weight as nat, total_weight as nat)
}

/// The refusal, if any, that a claim meets before its path is walked.
pub open spec fn claim_precheck_spec(
    bd: BoostDistributor,
    bitmap: ClaimBitmap256,
    epoch: u64,
    index: u32,
    proof_len: nat,
) -> Result<(), VaultError> {
    if bd.epoch != epoch {
        Err(VaultError::EpochMismatch)
    } else if bd.total_weight == 0 {
        Err(VaultError::NoActiveEpoch)
    } else if index >= 256 {
        Err(VaultError::IndexOutOfRange)
    } else if bitmap@.contains(index as int) {
        Err(VaultError::AlreadyClaimed)
    } else if proof_len > MAX_PROOF_NODES {
        Err(VaultError::ProofTooLong)
    } else {
        Ok(())
    }
}

/// What a claim that passed [`claim_precheck_spec`] comes to, once its
/// path has been walked to the node `reached`.
pub open spec fn claim_settle_spec(bd: BoostDistributor, weight: u128, reached: [u8; 32]) -> Result<
    u64,
    VaultError,
> {
    if reached != bd.root {
        Err(VaultError::ProofInvalid)
    } else if payout_of(bd.boost_total, weight, bd.total_weight) > u64::MAX {
        Err(VaultError::AmountTooLarge)
    } else {
        Ok(payout_of(bd.boost_total, weight, bd.total_weight) as u64)
    }
}

/// What a claim comes to: the payout, or the first refusal in the order
/// epoch, active epoch, index, flag, path length, path, amount.
pub open spec fn claim_spec(
    bd: BoostDistributor,
    bitmap: ClaimBitmap256,
    epoch: u64,
    index: u32,
    weight: u128,
    claimer: Pubkey,
    proof: Seq<[u8; 32]>,
) -> Result<u64, VaultError> {
    match claim_precheck_spec(bd, bitmap, epoch, index, proof.len()) {
        Err(e) => Err(e),
        Ok(_) => claim_settle_spec(bd, weight, merkle_root(leaf_node(index, claimer, weight), proof)),
    }
}

/// Lays out the bytes that are hashed for a leaf.
pub fn build_leaf_preimage(index: u32, claimer: &Pubkey, weight: u128) -> (bytes: Vec<u8>)
    ensures
        bytes@ == leaf_preimage(index, *claimer, weight),
{
    let mut bytes: Vec<u8> = Vec::with_capacity(58);
    push_bytes(&mut bytes, LEAF_TAG.as_slice());
    push_le(&mut bytes, index as u128, 4);
    push_bytes(&mut bytes, claimer.as_slice());
    push_le(&mut bytes, weight, 16);
    assert(bytes@ =~= leaf_preimage(index, *claimer, weight));
    bytes
}

/// The leaf of `claimer` at `index` with `weight`.
pub fn leaf_hash(index: u32, claimer: &Pubkey, weight: u128) -> (leaf: [u8; 32])
    ensures
        leaf == leaf_node(index, *claimer, weight),
{
    let bytes = build_leaf_preimage(index, claimer, weight);
    keccak256(bytes.as_slice())
}

/// Checks all that can be checked of a claim before any hashing: that it
/// names the bound epoch, that the epoch has weight, that the index has a
/// flag and the flag is unset, and that the path is not too long.
pub fn claim_precheck(
    bd: &BoostDistributor,
    bitmap: &ClaimBitmap256,
    epoch: u64,
    index: u32,
    proof_len: usize,
) -> (r: Result<(), VaultError>)
    ensures
        r == claim_precheck_spec(*bd, *bitmap, epoch, index, proof_len as nat),
{
    if bd.epoch != epoch {
        return Err(VaultError::EpochMismatch);
    }
    if bd.total_weight == 0 {
        return Err(VaultError::NoActiveEpoch);
    }
    match bitmap.is_claimed(index) {
        Err(e) => {
            return Err(e);
        },
        Ok(paid) => {
            if paid {
                return Err(VaultError::AlreadyClaimed);
            }
        },
    }
    if proof_len > MAX_PROOF_NODES {
        return Err(VaultError::ProofTooLong);
    }
    Ok(())
}

/// Settles a claim whose path has been walked to `reached`: compares that
/// node with the bound root, computes the payout from the boost collected
/// so far, and sets the flag.
///
/// The flag is set exactly when a payout is returned; the caller must
/// then transfer that amount to the claimer, or abandon both.
pub fn claim_settle(
    bd: &BoostDistributor,
    bitmap: &mut ClaimBitmap256,
    index: u32,
    weight: u128,
    reached: &[u8; 32],
) -> (r: Result<u64, VaultError>)
    requires
        bd.total_weight > 0,
        index < 256,
    ensures
        r == claim_settle_spec(*bd, weight, *reached),
        r is Ok ==> final(bitmap)@ == old(bitmap)@.insert(index as int),
        r is Err ==> *final(bitmap) == *old(bitmap),
{
    if !nodes_equal(reached, &bd.root) {
        return Err(VaultError::ProofInvalid);
    }
    match mul_div_u64(bd.boost_total, weight, bd.total_weight) {
        None => Err(VaultError::AmountTooLarge),
        Some(payout) => {
            bitmap.mark_claimed(index);
            Ok(payout)
        },
    }
}

/// Pays the claim of `claimer` at `index` under `epoch`.
///
/// Returns the amount to transfer from the boost custody to the claimer
/// and sets the claim's flag, or returns the first refusal and changes
/// nothing. The payout is taken from `boost_total` as it stands now, not
/// as it stood when the root was posted.
pub fn claim(
    bd: &BoostDistributor,
    bitmap: &mut ClaimBitmap256,
    epoch: u64,
    index: u32,
    weight: u128,
    claimer: &Pubkey,
    proof: &[[u8; 32]],
) -> (r: Result<u64, VaultError>)
    ensures
        r == claim_spec(*bd, *old(bitmap), epoch, index, weight, *claimer, proof@),
        r is Ok ==> final(bitmap)@ == old(bitmap)@.insert(index as int),
        r is Err ==> *final(bitmap) == *old(bitmap),
        old(bitmap)@.subset_of(final(bitmap)@),
{
    match claim_precheck(bd, bitmap, epoch, index, proof.len()) {
        Err(e) => Err(e),
        Ok(_) => {
            let leaf = leaf_hash(index, claimer, weight);
            let reached = compute_root(&leaf, proof);
            claim_settle(bd, bitmap, index, weight, &reached)
        },
    }
}

/// A claim index is paid once under an epoch: after a claim has
/// succeeded, every claim of the same index under the same epoch record
/// is refused as already claimed, whatever weight, claimer and path it
/// brings, and however many other flags have been set since.
pub proof fn lemma_claim_pays_once(
    bd: BoostDistributor,
    before: ClaimBitmap256,
    later: ClaimBitmap256,
    epoch: u64,
    index: u32,
    weight: u128,
    claimer: Pubkey,
    proof: Seq<[u8; 32]>,
    later_weight: u128,
    later_claimer: Pubkey,
    later_proof: Seq<[u8; 32]>,
)
    requires
        claim_spec(bd, before, epoch, index, weight, claimer, proof) is Ok,
        before@.insert(index as int).subset_of(later@),
    ensures
        later@.contains(index as int),
        claim_spec(bd, later, epoch, index, later_weight, later_claimer, later_proof) == Err::<
            u64,
            VaultError,
        >(VaultError::AlreadyClaimed),
{
    assert(before@.insert(index as int).contains(index as int));
}

/// While a record is bound to an epoch, a claim that names another epoch
/// is refused, whatever else it brings.
pub proof fn lemma_claim_for_other_epoch_is_refused(
    bd: BoostDistributor,
    bitmap: ClaimBitmap256,
    epoch: u64,
    index: u32,
    weight: u128,
    claimer: Pubkey,
    proof: Seq<[u8; 32]>,
)
    requires
        epoch != bd.epoch,
    ensures
        claim_spec(bd, bitmap, epoch, index, weight, claimer, proof) == Err::<u64, VaultError>(
            VaultError::EpochMismatch,
        ),
{
}

/// Leaves that differ in index, claimer or weight are hashed from
/// different bytes.
pub proof fn lemma_leaf_preimage_injective(
    index1: u32,
    claimer1: Pubkey,
    weight1: u128,
    index2: u32,
    claimer2: Pubkey,
    weight2: u128,
)
    requires
        leaf_preimage(index1, claimer1, weight1) == leaf_preimage(index2, claimer2, weight2),
    ensures
        index1 == index2,
        claimer1 == claimer2,
        weight1 == weight2,
{
    let one = leaf_preimage(index1, claimer1, weight1);
    let two = leaf_preimage(index2, claimer2, weight2);
    lemma_le_bytes_len(index1 as nat, 4);
    lemma_le_bytes_len(index2 as nat, 4);
    lemma_le_bytes_len(weight1 as nat, 16);
    lemma_le_bytes_len(weight2 as nat, 16);
    lemma_pow256_widths();
    assert(one.subrange(6, 10) =~= le_bytes(index1 as nat, 4));
    assert(two.subrange(6, 10) =~= le_bytes(index2 as nat, 4));
    lemma_le_bytes_injective(index1 as nat, index2 as nat, 4);
    assert(one.subrange(10, 42) =~= claimer1@);
    assert(two.subrange(10, 42) =~= claimer2@);
    assert(claimer1 =~= claimer2);
    assert(one.subrange(42, 58) =~= le_bytes(weight1 as nat, 16));
    assert(two.subrange(42, 58) =~= le_bytes(weight2 as nat, 16));
    lemma_le_bytes_injective(weight1 as nat, weight2 as nat, 16);
}

/// The bytes of a leaf are never the bytes of an inner node: a leaf is
/// hashed from 58 bytes, a pair of nodes from 64.
pub proof fn lemma_leaf_is_no_inner_node(
    index: u32,
    claimer: Pubkey,
    weight: u128,
    left: [u8; 32],
    right: [u8; 32],
)
    ensures
        leaf_preimage(index, claimer, weight) != pair_preimage(left, right),
{
    lemma_le_bytes_len(index as nat, 4);
    lemma_le_bytes_len(weight as nat, 16);
    assert(leaf_preimage(index, claimer, weight).len() == 58);
    assert(pair_preimage(left, right).len() == 64);
}

/// A claim that states another index, claimer or weight than the leaf of
/// its path was built with is refused as `ProofInvalid`, unless two
/// different byte strings with the same Keccak-256 digest exist.
///
/// `bd.root` is the root of a tree that holds the leaf built from
/// `built_index`, `built_claimer` and `built_weight`, and `proof` is the
/// path of that leaf. The claim has passed the checks that come before
/// the path.
pub proof fn lemma_foreign_leaf_is_refused(
    bd: BoostDistributor,
    bitmap: ClaimBitmap256,
    epoch: u64,
    built_index: u32,
    built_claimer: Pubkey,
    built_weight: u128,
    index: u32,
    claimer: Pubkey,
    weight: u128,
    proof: Seq<[u8; 32]>,
)
    requires
        merkle_root(leaf_node(built_index, built_claimer, built_weight), proof) == bd.root,
        index != built_index || claimer != built_claimer || weight != built_weight,
        claim_precheck_spec(bd, bitmap, epoch, index, proof.len()) is Ok,
    ensures
        claim_spec(bd, bitmap, epoch, index, weight, claimer, proof) == Err::<u64, VaultError>(
            VaultError::ProofInvalid,
        ) || exists|x: Seq<u8>, y: Seq<u8>| keccak256_collision(x, y),
{
    let built = leaf_node(built_index, built_claimer, built_weight);
    let stated = leaf_node(index, claimer, weight);
    if merkle_root(stated, proof) == bd.root {
        if built == stated {
            let x = leaf_preimage(built_index, built_claimer, built_weight);
            let y = leaf_preimage(index, claimer, weight);
            if x == y {
                lemma_leaf_preimage_injective(
                    built_index,
                    built_claimer,
                    built_weight,
                    index,
                    claimer,
                    weight,
                );
            }
            assert(keccak256_collision(x, y));
        } else {
            lemma_same_root_needs_collision(built, stated, proof);
        }
    }
}

/// A claim that states another weight than the one its leaf was built
/// with is refused as `ProofInvalid`, even where the payout of the stated
/// weight could be paid, unless two different byte strings with the same
/// Keccak-256 digest exist.
pub proof fn lemma_wrong_weight_is_refused(
    bd: BoostDistributor,
    bitmap: ClaimBitmap256,
    epoch: u64,
    index: u32,
    claimer: Pubkey,
    built_weight: u128,
    stated_weight: u128,
    proof: Seq<[u8; 32]>,
)
    requires
        merkle_root(leaf_node(index, claimer, built_weight), proof) == bd.root,
        stated_weight != built_weight,
        claim_precheck_spec(bd, bitmap, epoch, index, proof.len()) is Ok,
    ensures
        claim_spec(bd, bitmap, epoch, index, stated_weight, claimer, proof) == Err::<
            u64,
            VaultError,
        >(VaultError::ProofInvalid) || exists|x: Seq<u8>, y: Seq<u8>| keccak256_collision(x, y),
{
    lemma_foreign_leaf_is_refused(
        bd,
        bitmap,
        epoch,
        index,
        claimer,
        built_weight,
        index,
        claimer,
        stated_weight,
        proof,
    );
}

/// In a tree of a single leaf the path is empty, and a claim succeeds only
/// if its leaf is the root itself; a claim that passed the checks before
/// the path is refused as `ProofInvalid` exactly when it is not.
pub proof fn lemma_single_leaf_claim(
    bd: BoostDistributor,
    bitmap: ClaimBitmap256,
    epoch: u64,
    index: u32,
    weight: u128,
    claimer: Pubkey,
)
    ensures
        claim_spec(bd, bitmap, epoch, index, weight, claimer, Seq::empty()) is Ok ==> leaf_node(
            index,
            claimer,
            weight,
        ) == bd.root,
        claim_precheck_spec(bd, bitmap, epoch, index, 0) is Ok ==> (claim_spec(
            bd,
            bitmap,
            epoch,
            index,
            weight,
            claimer,
            Seq::empty(),
        ) == Err::<u64, VaultError>(VaultError::ProofInvalid) <==> leaf_node(
            index,
            claimer,
            weight,
        ) != bd.root),
{
}

/// A claim is never paid less because the pool has grown: the payout is
/// taken from the pool as it stands when the claim is made, and grows
/// with it.
pub proof fn lemma_payout_grows_with_pool(
    boost_before: u64,
    boost_after: u64,
    weight: u128,
    total_weight: u128,
)
    requires
        total_weight > 0,
        boost_before <= boost_after,
    ensures
        payout_of(boost_before, weight, total_weight) <= payout_of(
            boost_after,
            weight,
            total_weight,
        ),
{
    lemma_mul_div_floor_monotonic(
        boost_before as nat,
        boost_after as nat,
        weight as nat,
        total_weight as nat,
    );
}

/// The sum of the payouts of the claims of `weights`, all taken from the
/// same `boost_total`.
pub open spec fn total_payout(boost_total: u64, weights: Seq<u128>, total_weight: u128) -> nat
    decreases weights.len(),
{
    if weights.len() == 0 {
        0
    } else {
        total_payout(boost_total, weights.drop_last(), total_weight) + payout_of(
            boost_total,
            weights.last(),
            total_weight,
        )
    }
}

/// The sum of a sequence of weights.
pub open spec fn total_of(weights: Seq<u128>) -> nat
    decreases weights.len(),
{
    if weights.len() == 0 {
        0
    } else {
        total_of(weights.drop_last()) + weights.last() as nat
    }
}

/// Payouts never exceed the pool: claims whose weights sum to no more
/// than the total weight are together paid no more than `boost_total`,
/// because each payout is rounded down.
pub proof fn lemma_payouts_within_pool(boost_total: u64, weights: Seq<u128>, total_weight: u128)
    requires
        total_weight > 0,
        total_of(weights) <= total_weight,
    ensures
        total_payout(boost_total, weights, total_weight) <= boost_total,
{
    lemma_payouts_scaled(boost_total, weights, total_weight);
    let paid = total_payout(boost_total, weights, total_weight);
    assert(paid <= boost_total) by (nonlinear_arith)
        requires
            paid * total_weight <= boost_total * total_of(weights),
            total_of(weights) <= total_weight,
            total_weight > 0,
            paid >= 0,
    ;
}

/// Scaled by the total weight, the payouts of some claims are no more
/// than the pool times the weight they claimed.
proof fn lemma_payouts_scaled(boost_total: u64, weights: Seq<u128>, total_weight: u128)
    requires
        total_weight > 0,
    ensures
        total_payout(boost_total, weights, total_weight) * total_weight <= boost_total * total_of(
            weights,
        ),
    decreases weights.len(),
{
    if weights.len() > 0 {
        lemma_payouts_scaled(boost_total, weights.drop_last(), total_weight);
        lemma_mul_div_floor_bounds(
            boost_total as nat,
            weights.last() as nat,
            total_weight as nat,
        );
        let before = total_payout(boost_total, weights.drop_last(), total_weight);
        let last = payout_of(boost_total, weights.last(), total_weight);
        let claimed = total_of(weights.drop_last());
        assert((before + last) * total_weight <= boost_total * (claimed + weights.last()))
            by (nonlinear_arith)
            requires
                before * total_weight <= boost_total * claimed,
                last * total_weight <= boost_total * weights.last(),
        ;
    } else {
        assert(0 * total_weight <= boost_total * 0) by (nonlinear_arith);
    }
}

} // verus!
