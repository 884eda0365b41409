//! The three records of a vault.

use vstd::prelude::*;
use crate::error::VaultError;

verus! {

/// A 32-byte identity: an account, a mint or a program.
pub type Pubkey = [u8; 32];

/// The fixed-point scale of the price per share: `RAY` stands for 1.0.
pub const RAY: u128 = 1_000_000_000_000;

/// The number of claim flags in a bitmap.
pub const CLAIM_SLOTS: u32 = 256;

/// The vault itself: who may act on it, which assets it holds, and the
/// share accounting.
#[derive(Clone, Copy, Debug, PartialEq, Eq)]
pub struct VaultState {
    pub admin: Pubkey,
    pub operator: Pubkey,
    pub usdc_mint: Pubkey,
    pub share_mint: Pubkey,
    pub vault_pda: Pubkey,
    pub vault_bump: u8,
    pub _pad1: [u8; 7],
    /// Shares in existence; the supply of the share mint equals it.
    pub total_shares: u128,
    /// Price per share at scale [`RAY`]. It is not zero in the record of a
    /// vault, and no operation lowers it.
    pub pps: u128,
    /// Donations received while no share existed, not yet in the price.
    pub buffered_base: u64,
    pub last_settle_slot: u64,
}

/// The live boost epoch of a vault: one slot, overwritten whenever a new
/// root is posted.
#[derive(Clone, Copy, Debug, PartialEq, Eq)]
pub struct BoostDistributor {
    pub epoch: u64,
    pub root: [u8; 32],
    pub total_weight: u128,
    /// Boost collected under this epoch; claims are paid from it.
    pub boost_total: u64,
    pub _pad: [u8; 8],
}

/// 256 flags, one per claim index: flag `i` is bit `i % 8` of byte `i / 8`.
#[derive(Clone, Copy, Debug, PartialEq, Eq)]
pub struct ClaimBitmap256 {
    pub words: [u8; 32],
}

/// Whether bit `bit` of `byte` is set.
pub open spec fn bit_is_set(byte: u8, bit: u8) -> bool {
    byte & (1u8 << bit) != 0
}

/// Setting one bit of a byte sets that bit and changes no other.
pub proof fn lemma_set_bit(byte: u8, bit: u8, other: u8)
    by (bit_vector)
    requires
        bit < 8,
        other < 8,
    ensures
        bit_is_set(byte | (1u8 << bit), other) == (other == bit || bit_is_set(byte, other)),
{
}

/// No bit of a zero byte is set.
pub proof fn lemma_zero_byte_clear(bit: u8)
    by (bit_vector)
    requires
        bit < 8,
    ensures
        !bit_is_set(0u8, bit),
{
}

/// Two bytes with the same eight bits are the same byte.
pub proof fn lemma_bits_decide_byte(x: u8, y: u8)
    by (bit_vector)
    requires
        bit_is_set(x, 0) == bit_is_set(y, 0),
        bit_is_set(x, 1) == bit_is_set(y, 1),
        bit_is_set(x, 2) == bit_is_set(y, 2),
        bit_is_set(x, 3) == bit_is_set(y, 3),
        bit_is_set(x, 4) == bit_is_set(y, 4),
        bit_is_set(x, 5) == bit_is_set(y, 5),
        bit_is_set(x, 6) == bit_is_set(y, 6),
        bit_is_set(x, 7) == bit_is_set(y, 7),
    ensures
        x == y,
{
}

impl View for ClaimBitmap256 {
    type V = Set<int>;

    /// The claim indices that have been paid.
    open spec fn view(&self) -> Set<int> {
        Set::new(|i: int| self.claimed(i))
    }
}

impl ClaimBitmap256 {
    /// Whether flag `index` is set. No flag exists beyond the 256th.
    pub open spec fn claimed(&self, index: int) -> bool {
        0 <= index < 256 && bit_is_set(self.words@[index / 8], (index % 8) as u8)
    }

    /// A bitmap with no flag set, as a new epoch needs it.
    pub fn new() -> (bitmap: ClaimBitmap256)
        ensures
            bitmap@ == Set::<int>::empty(),
    {
        let bitmap = ClaimBitmap256 { words: [0u8; 32] };
        proof {
            assert forall|i: int| !bitmap.claimed(i) by {
                if 0 <= i < 256 {
                    lemma_zero_byte_clear((i % 8) as u8);
                }
            }
            assert(bitmap@ =~= Set::<int>::empty());
        }
        bitmap
    }

    /// Whether claim `index` has been paid.
    ///
    /// Fails with `IndexOutOfRange` exactly when `index` is 256 or more.
    pub fn is_claimed(&self, index: u32) -> (r: Result<bool, VaultError>)
        ensures
            r == if index < 256 {
                Ok::<bool, VaultError>(self@.contains(index as int))
            } else {
                Err::<bool, VaultError>(VaultError::IndexOutOfRange)
            },
    {
        if index >= CLAIM_SLOTS {
            return Err(VaultError::IndexOutOfRange);
        }
        let byte: usize = (index / 8) as usize;
        let bit: u8 = (index % 8) as u8;
        let mask: u8 = 1u8 << bit;
        Ok(self.words[byte] & mask != 0)
    }

    /// Sets the flag of claim `index`; every other flag stays as it is.
    pub fn mark_claimed(&mut self, index: u32)
        requires
            index < 256,
        ensures
            final(self)@ == old(self)@.insert(index as int),
    {
        let byte: usize = (index / 8) as usize;
        let bit: u8 = (index % 8) as u8;
        let mask: u8 = 1u8 << bit;
        let before: u8 = self.words[byte];
        self.words[byte] = before | mask;
        proof {
            assert forall|i: int| self.claimed(i) == (i == index || old(self).claimed(i)) by {
                if 0 <= i < 256 {
                    if i / 8 == byte {
                        lemma_set_bit(before, bit, (i % 8) as u8);
                    }
                }
            }
            assert(self@ =~= old(self)@.insert(index as int));
        }
    }
}

/// The flags that are set decide the bitmap: two bitmaps with the same
/// claims paid are the same 32 bytes.
pub proof fn lemma_bitmap_view_injective(a: ClaimBitmap256, b: ClaimBitmap256)
    requires
        a@ == b@,
    ensures
        a == b,
{
    assert forall|j: int| 0 <= j < 32 implies a.words@[j] == b.words@[j] by {
        assert(a.claimed(8 * j) == a@.contains(8 * j) && b.claimed(8 * j) == b@.contains(8 * j));
        assert(a.claimed(8 * j + 1) == a@.contains(8 * j + 1) && b.claimed(8 * j + 1)
            == b@.contains(8 * j + 1));
        assert(a.claimed(8 * j + 2) == a@.contains(8 * j + 2) && b.claimed(8 * j + 2)
            == b@.contains(8 * j + 2));
        assert(a.claimed(8 * j + 3) == a@.contains(8 * j + 3) && b.claimed(8 * j + 3)
            == b@.contains(8 * j + 3));
        assert(a.claimed(8 * j + 4) == a@.contains(8 * j + 4) && b.claimed(8 * j + 4)
            == b@.contains(8 * j + 4));
        assert(a.claimed(8 * j + 5) == a@.contains(8 * j + 5) && b.claimed(8 * j + 5)
            == b@.contains(8 * j + 5));
        assert(a.claimed(8 * j + 6) == a@.contains(8 * j + 6) && b.claimed(8 * j + 6)
            == b@.contains(8 * j + 6));
        assert(a.claimed(8 * j + 7) == a@.contains(8 * j + 7) && b.claimed(8 * j + 7)
            == b@.contains(8 * j + 7));
        lemma_bits_decide_byte(a.words@[j], b.words@[j]);
    }
    assert(a.words =~= b.words);
}

} // verus!
