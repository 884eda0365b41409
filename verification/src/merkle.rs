//! Sorted-pair merkle paths.
//!
//! A parent is the digest of its two children, the smaller in
//! lexicographic order first. A path therefore needs no record of which
//! side each sibling stands on.

use vstd::prelude::*;
use crate::hash::{keccak256, keccak256_collision, keccak256_digest, nodes_equal};

verus! {

/// The most siblings that a path may hold.
pub const MAX_PROOF_NODES: usize = 16;

/// Lexicographic order on byte strings: whether `a` comes before `b` or
/// equals it.
pub open spec fn lex_le(a: Seq<u8>, b: Seq<u8>) -> bool
    decreases a.len(),
{
    if a.len() == 0 {
        true
    } else if b.len() == 0 {
        false
    } else if a[0] != b[0] {
        a[0] < b[0]
    } else {
        lex_le(a.skip(1), b.skip(1))
    }
}

/// The 64 bytes that are hashed for the parent of `a` and `b`.
pub open spec fn pair_preimage(a: [u8; 32], b: [u8; 32]) -> Seq<u8> {
    if lex_le(a@, b@) {
        a@ + b@
    } else {
        b@ + a@
    }
}

/// The parent of two nodes.
pub open spec fn parent_node(a: [u8; 32], b: [u8; 32]) -> [u8; 32] {
    keccak256_digest(pair_preimage(a, b))
}

/// The node reached from `leaf` by joining it with each sibling of
/// `proof` in turn.
pub open spec fn merkle_root(leaf: [u8; 32], proof: Seq<[u8; 32]>) -> [u8; 32]
    decreases proof.len(),
{
    if proof.len() == 0 {
        leaf
    } else {
        parent_node(merkle_root(leaf, proof.drop_last()), proof.last())
    }
}

/// Of two strings of one length, one comes before the other or equals it.
pub proof fn lemma_lex_le_total(a: Seq<u8>, b: Seq<u8>)
    requires
        a.len() == b.len(),
    ensures
        lex_le(a, b) || lex_le(b, a),
    decreases a.len(),
{
    if a.len() > 0 && a[0] == b[0] {
        lemma_lex_le_total(a.skip(1), b.skip(1));
    }
}

/// Two strings of one length that come before each other are equal.
pub proof fn lemma_lex_le_antisymmetric(a: Seq<u8>, b: Seq<u8>)
    requires
        a.len() == b.len(),
        lex_le(a, b),
        lex_le(b, a),
    ensures
        a == b,
    decreases a.len(),
{
    if a.len() > 0 {
        lemma_lex_le_antisymmetric(a.skip(1), b.skip(1));
        assert(a =~= seq![a[0]] + a.skip(1));
        assert(b =~= seq![b[0]] + b.skip(1));
    } else {
        assert(a =~= b);
    }
}

/// The parent of two nodes does not depend on the side each stands on.
pub proof fn lemma_parent_symmetric(a: [u8; 32], b: [u8; 32])
    ensures
        pair_preimage(a, b) == pair_preimage(b, a),
        parent_node(a, b) == parent_node(b, a),
{
    lemma_lex_le_total(a@, b@);
    if lex_le(a@, b@) && lex_le(b@, a@) {
        lemma_lex_le_antisymmetric(a@, b@);
    }
}

/// Joined with one sibling, two different nodes are hashed from different
/// bytes.
pub proof fn lemma_pair_preimage_injective(a: [u8; 32], b: [u8; 32], sibling: [u8; 32])
    requires
        pair_preimage(a, sibling) == pair_preimage(b, sibling),
    ensures
        a == b,
{
    let pa = pair_preimage(a, sibling);
    let pb = pair_preimage(b, sibling);
    assert forall|j: int| 0 <= j < 32 implies a@[j] == b@[j] by {
        if lex_le(a@, sibling@) == lex_le(b@, sibling@) {
            if lex_le(a@, sibling@) {
                assert(pa[j] == a@[j] && pb[j] == b@[j]);
            } else {
                assert(pa[32 + j] == a@[j] && pb[32 + j] == b@[j]);
            }
        } else if lex_le(a@, sibling@) {
            // a ++ sibling == sibling ++ b
            assert(pa[j] == a@[j] && pb[j] == sibling@[j]);
            assert(pa[32 + j] == sibling@[j] && pb[32 + j] == b@[j]);
        } else {
            // sibling ++ a == b ++ sibling
            assert(pa[j] == sibling@[j] && pb[j] == b@[j]);
            assert(pa[32 + j] == a@[j] && pb[32 + j] == sibling@[j]);
        }
    }
    assert(a =~= b);
}

/// With no siblings the root is the leaf itself.
pub proof fn lemma_root_of_empty_proof(leaf: [u8; 32])
    ensures
        merkle_root(leaf, Seq::empty()) == leaf,
{
}

/// Two different leaves that one path leads to the same root exhibit two
/// different byte strings with the same Keccak-256 digest.
pub proof fn lemma_same_root_needs_collision(a: [u8; 32], b: [u8; 32], proof: Seq<[u8; 32]>)
    requires
        a != b,
        merkle_root(a, proof) == merkle_root(b, proof),
    ensures
        exists|x: Seq<u8>, y: Seq<u8>| keccak256_collision(x, y),
    decreases proof.len(),
{
    if proof.len() > 0 {
        let below_a = merkle_root(a, proof.drop_last());
        let below_b = merkle_root(b, proof.drop_last());
        if below_a == below_b {
            lemma_same_root_needs_collision(a, b, proof.drop_last());
        } else {
            let x = pair_preimage(below_a, proof.last());
            let y = pair_preimage(below_b, proof.last());
            if x == y {
                lemma_pair_preimage_injective(below_a, below_b, proof.last());
            }
            assert(keccak256_collision(x, y));
        }
    }
}

/// Whether `a` comes before `b` in lexicographic order, or equals it.
pub fn node_le(a: &[u8; 32], b: &[u8; 32]) -> (le: bool)
    ensures
        le == lex_le(a@, b@),
{
    let mut k: usize = 0;
    assert(a@.skip(0) =~= a@ && b@.skip(0) =~= b@);
    while k < 32
        invariant
            k <= 32,
            lex_le(a@, b@) == lex_le(a@.skip(k as int), b@.skip(k as int)),
        decreases 32 - k,
    {
        let ghost ra = a@.skip(k as int);
        let ghost rb = b@.skip(k as int);
        assert(ra[0] == a@[k as int] && rb[0] == b@[k as int]);
        if a[k] != b[k] {
            return a[k] < b[k];
        }
        assert(ra.skip(1) =~= a@.skip(k + 1));
        assert(rb.skip(1) =~= b@.skip(k + 1));
        k = k + 1;
    }
    true
}

/// Lays out the two nodes as they are hashed: the smaller first.
pub fn build_pair_preimage(a: &[u8; 32], b: &[u8; 32]) -> (bytes: Vec<u8>)
    ensures
        bytes@ == pair_preimage(*a, *b),
{
    let a_first: bool = node_le(a, b);
    let mut bytes: Vec<u8> = Vec::with_capacity(64);
    let mut k: usize = 0;
    while k < 64
        invariant
            k <= 64,
            bytes@.len() == k,
            a_first == lex_le(a@, b@),
            forall|j: int| 0 <= j < k ==> bytes@[j] == pair_preimage(*a, *b)[j],
        decreases 64 - k,
    {
        let from_a: bool = (k < 32) == a_first;
        let at: usize = if k < 32 {
            k
        } else {
            k - 32
        };
        let byte: u8 = if from_a {
            a[at]
        } else {
            b[at]
        };
        bytes.push(byte);
        k = k + 1;
    }
    assert(bytes@ =~= pair_preimage(*a, *b));
    bytes
}

/// Hashes two nodes into their parent.
pub fn hash_pair(a: &[u8; 32], b: &[u8; 32]) -> (parent: [u8; 32])
    ensures
        parent == parent_node(*a, *b),
{
    let bytes = build_pair_preimage(a, b);
    keccak256(bytes.as_slice())
}

/// Walks a path from `leaf` to the node it ends in.
pub fn compute_root(leaf: &[u8; 32], proof: &[[u8; 32]]) -> (root: [u8; 32])
    ensures
        root == merkle_root(*leaf, proof@),
{
    let mut cur: [u8; 32] = *leaf;
    let mut k: usize = 0;
    while k < proof.len()
        invariant
            k <= proof@.len(),
            cur == merkle_root(*leaf, proof@.take(k as int)),
        decreases proof@.len() - k,
    {
        let ghost upto = proof@.take(k + 1);
        assert(upto.drop_last() =~= proof@.take(k as int));
        assert(upto.last() == proof@[k as int]);
        cur = hash_pair(&cur, &proof[k]);
        k = k + 1;
    }
    assert(proof@.take(k as int) =~= proof@);
    cur
}

/// Whether the path `proof` leads from `leaf` to `root`.
pub fn verify_merkle(root: &[u8; 32], leaf: &[u8; 32], proof: &[[u8; 32]]) -> (ok: bool)
    ensures
        ok == (merkle_root(*leaf, proof@) == *root),
{
    let reached = compute_root(leaf, proof);
    nodes_equal(&reached, root)
}

} // verus!
