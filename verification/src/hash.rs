//! Keccak-256, the hash of leaves and of merkle nodes.

use vstd::prelude::*;

verus! {

/// The Keccak-256 digest of a byte string.
///
/// The digest is computed outside this crate; nothing is stated of it but
/// that it is a function of the bytes hashed.
pub uninterp spec fn keccak256_digest(data: Seq<u8>) -> [u8; 32];

/// Hashes `data` with Keccak-256.
///
/// Calls `solana_keccak_hasher::hash`, which feeds the bytes to a
/// Keccak-256 state and returns the 32 bytes it finalizes to. The contract
/// only gives that result its name: equal inputs have equal digests.
#[verifier::external_body]
pub(crate) fn keccak256(data: &[u8]) -> (digest: [u8; 32])
    ensures
        digest == keccak256_digest(data@),
{
    solana_keccak_hasher::hash(data).to_bytes()
}

/// Two different byte strings with the same digest.
pub open spec fn keccak256_collision(x: Seq<u8>, y: Seq<u8>) -> bool {
    x != y && keccak256_digest(x) == keccak256_digest(y)
}

/// Whether two nodes hold the same 32 bytes.
pub fn nodes_equal(a: &[u8; 32], b: &[u8; 32]) -> (same: bool)
    ensures
        same == (*a == *b),
{
    let mut k: usize = 0;
    while k < 32
        invariant
            k <= 32,
            forall|j: int| 0 <= j < k ==> a@[j] == b@[j],
        decreases 32 - k,
    {
        if a[k] != b[k] {
            return false;
        }
        k = k + 1;
    }
    assert(*a =~= *b);
    true
}

} // verus!
