//! The byte layouts of the three records.
//!
//! A record is stored as its fields in order, without gaps, integers
//! little-endian. Reading takes the leading bytes of an account; bytes
//! beyond the record are not looked at.

use vstd::prelude::*;
use crate::codec::{
    le_bytes, lemma_le_bytes_injective, lemma_le_bytes_len, lemma_le_bytes_of_value,
    lemma_pow256_widths, push_bytes, push_le, read_array, read_u128_le, read_u64_le,
};
use crate::error::VaultError;
use crate::state::{BoostDistributor, ClaimBitmap256, VaultState};

verus! {

/// The length of a stored vault record.
pub const VAULT_STATE_LEN: usize = 216;

/// The length of a stored boost epoch record.
pub const BOOST_DISTRIBUTOR_LEN: usize = 72;

/// The length of a stored claim bitmap.
pub const CLAIM_BITMAP_LEN: usize = 32;

/// The bytes of a vault record: the five identities, the nonce with its
/// seven bytes of padding, then the share total, the price, the buffer and
/// the reserved slot.
pub open spec fn vault_bytes(st: VaultState) -> Seq<u8> {
    st.admin@ + st.operator@ + st.usdc_mint@ + st.share_mint@ + st.vault_pda@ + seq![
        st.vault_bump,
    ] + st._pad1@ + le_bytes(st.total_shares as nat, 16) + le_bytes(st.pps as nat, 16) + le_bytes(
        st.buffered_base as nat,
        8,
    ) + le_bytes(st.last_settle_slot as nat, 8)
}

/// The bytes of a boost epoch record: epoch, root, total weight, boost
/// collected, and eight bytes of padding.
pub open spec fn boost_bytes(bd: BoostDistributor) -> Seq<u8> {
    le_bytes(bd.epoch as nat, 8) + bd.root@ + le_bytes(bd.total_weight as nat, 16) + le_bytes(
        bd.boost_total as nat,
        8,
    ) + bd._pad@
}

/// The bytes of a claim bitmap: its 32 bytes of flags.
pub open spec fn bitmap_bytes(bitmap: ClaimBitmap256) -> Seq<u8> {
    bitmap.words@
}

/// A stored vault record is 216 bytes long.
pub proof fn lemma_vault_bytes_len(st: VaultState)
    ensures
        vault_bytes(st).len() == VAULT_STATE_LEN,
{
    lemma_le_bytes_len(st.total_shares as nat, 16);
    lemma_le_bytes_len(st.pps as nat, 16);
    lemma_le_bytes_len(st.buffered_base as nat, 8);
    lemma_le_bytes_len(st.last_settle_slot as nat, 8);
}

/// A stored boost epoch record is 72 bytes long.
pub proof fn lemma_boost_bytes_len(bd: BoostDistributor)
    ensures
        boost_bytes(bd).len() == BOOST_DISTRIBUTOR_LEN,
{
    lemma_le_bytes_len(bd.epoch as nat, 8);
    lemma_le_bytes_len(bd.total_weight as nat, 16);
    lemma_le_bytes_len(bd.boost_total as nat, 8);
}

/// Two vault records that are stored alike are the same record.
pub proof fn lemma_vault_bytes_injective(a: VaultState, b: VaultState)
    requires
        vault_bytes(a) == vault_bytes(b),
    ensures
        a == b,
{
    let x = vault_bytes(a);
    let y = vault_bytes(b);
    lemma_vault_bytes_len(a);
    lemma_vault_bytes_len(b);
    lemma_le_bytes_len(a.total_shares as nat, 16);
    lemma_le_bytes_len(a.pps as nat, 16);
    lemma_le_bytes_len(a.buffered_base as nat, 8);
    lemma_le_bytes_len(a.last_settle_slot as nat, 8);
    lemma_le_bytes_len(b.total_shares as nat, 16);
    lemma_le_bytes_len(b.pps as nat, 16);
    lemma_le_bytes_len(b.buffered_base as nat, 8);
    lemma_le_bytes_len(b.last_settle_slot as nat, 8);
    lemma_pow256_widths();
    assert(x.subrange(0, 32) =~= a.admin@ && y.subrange(0, 32) =~= b.admin@);
    assert(a.admin =~= b.admin);
    assert(x.subrange(32, 64) =~= a.operator@ && y.subrange(32, 64) =~= b.operator@);
    assert(a.operator =~= b.operator);
    assert(x.subrange(64, 96) =~= a.usdc_mint@ && y.subrange(64, 96) =~= b.usdc_mint@);
    assert(a.usdc_mint =~= b.usdc_mint);
    assert(x.subrange(96, 128) =~= a.share_mint@ && y.subrange(96, 128) =~= b.share_mint@);
    assert(a.share_mint =~= b.share_mint);
    assert(x.subrange(128, 160) =~= a.vault_pda@ && y.subrange(128, 160) =~= b.vault_pda@);
    assert(a.vault_pda =~= b.vault_pda);
    assert(x[160] == a.vault_bump && y[160] == b.vault_bump);
    assert(x.subrange(161, 168) =~= a._pad1@ && y.subrange(161, 168) =~= b._pad1@);
    assert(a._pad1 =~= b._pad1);
    assert(x.subrange(168, 184) =~= le_bytes(a.total_shares as nat, 16));
    assert(y.subrange(168, 184) =~= le_bytes(b.total_shares as nat, 16));
    lemma_le_bytes_injective(a.total_shares as nat, b.total_shares as nat, 16);
    assert(x.subrange(184, 200) =~= le_bytes(a.pps as nat, 16));
    assert(y.subrange(184, 200) =~= le_bytes(b.pps as nat, 16));
    lemma_le_bytes_injective(a.pps as nat, b.pps as nat, 16);
    assert(x.subrange(200, 208) =~= le_bytes(a.buffered_base as nat, 8));
    assert(y.subrange(200, 208) =~= le_bytes(b.buffered_base as nat, 8));
    lemma_le_bytes_injective(a.buffered_base as nat, b.buffered_base as nat, 8);
    assert(x.subrange(208, 216) =~= le_bytes(a.last_settle_slot as nat, 8));
    assert(y.subrange(208, 216) =~= le_bytes(b.last_settle_slot as nat, 8));
    lemma_le_bytes_injective(a.last_settle_slot as nat, b.last_settle_slot as nat, 8);
}

/// Two boost epoch records that are stored alike are the same record.
pub proof fn lemma_boost_bytes_injective(a: BoostDistributor, b: BoostDistributor)
    requires
        boost_bytes(a) == boost_bytes(b),
    ensures
        a == b,
{
    let x = boost_bytes(a);
    let y = boost_bytes(b);
    lemma_le_bytes_len(a.epoch as nat, 8);
    lemma_le_bytes_len(a.total_weight as nat, 16);
    lemma_le_bytes_len(a.boost_total as nat, 8);
    lemma_le_bytes_len(b.epoch as nat, 8);
    lemma_le_bytes_len(b.total_weight as nat, 16);
    lemma_le_bytes_len(b.boost_total as nat, 8);
    lemma_pow256_widths();
    assert(x.subrange(0, 8) =~= le_bytes(a.epoch as nat, 8));
    assert(y.subrange(0, 8) =~= le_bytes(b.epoch as nat, 8));
    lemma_le_bytes_injective(a.epoch as nat, b.epoch as nat, 8);
    assert(x.subrange(8, 40) =~= a.root@ && y.subrange(8, 40) =~= b.root@);
    assert(a.root =~= b.root);
    assert(x.subrange(40, 56) =~= le_bytes(a.total_weight as nat, 16));
    assert(y.subrange(40, 56) =~= le_bytes(b.total_weight as nat, 16));
    lemma_le_bytes_injective(a.total_weight as nat, b.total_weight as nat, 16);
    assert(x.subrange(56, 64) =~= le_bytes(a.boost_total as nat, 8));
    assert(y.subrange(56, 64) =~= le_bytes(b.boost_total as nat, 8));
    lemma_le_bytes_injective(a.boost_total as nat, b.boost_total as nat, 8);
    assert(x.subrange(64, 72) =~= a._pad@ && y.subrange(64, 72) =~= b._pad@);
    assert(a._pad =~= b._pad);
}

impl VaultState {
    /// The record as it is stored.
    pub fn to_bytes(&self) -> (bytes: Vec<u8>)
        ensures
            bytes@ == vault_bytes(*self),
            bytes@.len() == VAULT_STATE_LEN,
    {
        let mut bytes: Vec<u8> = Vec::with_capacity(VAULT_STATE_LEN);
        push_bytes(&mut bytes, self.admin.as_slice());
        push_bytes(&mut bytes, self.operator.as_slice());
        push_bytes(&mut bytes, self.usdc_mint.as_slice());
        push_bytes(&mut bytes, self.share_mint.as_slice());
        push_bytes(&mut bytes, self.vault_pda.as_slice());
        bytes.push(self.vault_bump);
        push_bytes(&mut bytes, self._pad1.as_slice());
        push_le(&mut bytes, self.total_shares, 16);
        push_le(&mut bytes, self.pps, 16);
        push_le(&mut bytes, self.buffered_base as u128, 8);
        push_le(&mut bytes, self.last_settle_slot as u128, 8);
        proof {
            assert(bytes@ =~= vault_bytes(*self));
            lemma_vault_bytes_len(*self);
        }
        bytes
    }

    /// Reads the record stored in the first 216 bytes of `data`.
    ///
    /// Fails with `MalformedInput` exactly when `data` is shorter than a
    /// record. Every string of 216 bytes is the stored form of exactly one
    /// record, and that record is returned.
    pub fn from_bytes(data: &[u8]) -> (r: Result<VaultState, VaultError>)
        ensures
            data@.len() < VAULT_STATE_LEN ==> r == Err::<VaultState, VaultError>(
                VaultError::MalformedInput,
            ),
            data@.len() >= VAULT_STATE_LEN ==> r is Ok && vault_bytes(r->Ok_0) == data@.subrange(
                0,
                VAULT_STATE_LEN as int,
            ),
    {
        if data.len() < VAULT_STATE_LEN {
            return Err(VaultError::MalformedInput);
        }
        let st = VaultState {
            admin: read_array(data, 0),
            operator: read_array(data, 32),
            usdc_mint: read_array(data, 64),
            share_mint: read_array(data, 96),
            vault_pda: read_array(data, 128),
            vault_bump: data[160],
            _pad1: read_array(data, 161),
            total_shares: read_u128_le(data, 168),
            pps: read_u128_le(data, 184),
            buffered_base: read_u64_le(data, 200),
            last_settle_slot: read_u64_le(data, 208),
        };
        proof {
            lemma_le_bytes_of_value(data@.subrange(168, 184));
            lemma_le_bytes_of_value(data@.subrange(184, 200));
            lemma_le_bytes_of_value(data@.subrange(200, 208));
            lemma_le_bytes_of_value(data@.subrange(208, 216));
            lemma_vault_bytes_len(st);
            assert(vault_bytes(st) =~= data@.subrange(0, VAULT_STATE_LEN as int));
        }
        Ok(st)
    }
}

impl BoostDistributor {
    /// The record as it is stored.
    pub fn to_bytes(&self) -> (bytes: Vec<u8>)
        ensures
            bytes@ == boost_bytes(*self),
            bytes@.len() == BOOST_DISTRIBUTOR_LEN,
    {
        let mut bytes: Vec<u8> = Vec::with_capacity(BOOST_DISTRIBUTOR_LEN);
        push_le(&mut bytes, self.epoch as u128, 8);
        push_bytes(&mut bytes, self.root.as_slice());
        push_le(&mut bytes, self.total_weight, 16);
        push_le(&mut bytes, self.boost_total as u128, 8);
        push_bytes(&mut bytes, self._pad.as_slice());
        proof {
            assert(bytes@ =~= boost_bytes(*self));
            lemma_boost_bytes_len(*self);
        }
        bytes
    }

    /// Reads the record stored in the first 72 bytes of `data`.
    ///
    /// Fails with `MalformedInput` exactly when `data` is shorter than a
    /// record.
    pub fn from_bytes(data: &[u8]) -> (r: Result<BoostDistributor, VaultError>)
        ensures
            data@.len() < BOOST_DISTRIBUTOR_LEN ==> r == Err::<BoostDistributor, VaultError>(
                VaultError::MalformedInput,
            ),
            data@.len() >= BOOST_DISTRIBUTOR_LEN ==> r is Ok && boost_bytes(r->Ok_0)
                == data@.subrange(0, BOOST_DISTRIBUTOR_LEN as int),
    {
        if data.len() < BOOST_DISTRIBUTOR_LEN {
            return Err(VaultError::MalformedInput);
        }
        let bd = BoostDistributor {
            epoch: read_u64_le(data, 0),
            root: read_array(data, 8),
            total_weight: read_u128_le(data, 40),
            boost_total: read_u64_le(data, 56),
            _pad: read_array(data, 64),
        };
        proof {
            lemma_le_bytes_of_value(data@.subrange(0, 8));
            lemma_le_bytes_of_value(data@.subrange(40, 56));
            lemma_le_bytes_of_value(data@.subrange(56, 64));
            lemma_boost_bytes_len(bd);
            assert(boost_bytes(bd) =~= data@.subrange(0, BOOST_DISTRIBUTOR_LEN as int));
        }
        Ok(bd)
    }
}

impl ClaimBitmap256 {
    /// The bitmap as it is stored.
    pub fn to_bytes(&self) -> (bytes: Vec<u8>)
        ensures
            bytes@ == bitmap_bytes(*self),
            bytes@.len() == CLAIM_BITMAP_LEN,
    {
        let mut bytes: Vec<u8> = Vec::with_capacity(CLAIM_BITMAP_LEN);
        push_bytes(&mut bytes, self.words.as_slice());
        assert(bytes@ =~= bitmap_bytes(*self));
        bytes
    }

    /// Reads the bitmap stored in the first 32 bytes of `data`.
    ///
    /// Fails with `MalformedInput` exactly when `data` is shorter than
    /// that.
    pub fn from_bytes(data: &[u8]) -> (r: Result<ClaimBitmap256, VaultError>)
        ensures
            data@.len() < CLAIM_BITMAP_LEN ==> r == Err::<ClaimBitmap256, VaultError>(
                VaultError::MalformedInput,
            ),
            data@.len() >= CLAIM_BITMAP_LEN ==> r is Ok && bitmap_bytes(r->Ok_0) == data@.subrange(
                0,
                CLAIM_BITMAP_LEN as int,
            ),
    {
        if data.len() < CLAIM_BITMAP_LEN {
            return Err(VaultError::MalformedInput);
        }
        Ok(ClaimBitmap256 { words: read_array(data, 0) })
    }
}

} // verus!
