//! The instructions sent to the token program.
//!
//! The vault moves tokens by asking the token program to transfer, mint
//! or burn. Each request carries ten bytes of data: the tag of the checked
//! instruction, the amount in eight little-endian bytes, and the decimals
//! of the mint.

use vstd::prelude::*;
use crate::codec::{le_bytes, lemma_le_bytes_len, push_le, read_array};

verus! {

/// The token program's tag for a checked transfer.
pub const IX_TRANSFER_CHECKED: u8 = 12;

/// The token program's tag for a checked mint.
pub const IX_MINT_TO_CHECKED: u8 = 14;

/// The token program's tag for a checked burn.
pub const IX_BURN_CHECKED: u8 = 15;

/// The decimals of the share mint, and of the asset that claims are paid
/// in.
pub const SHARE_DECIMALS: u8 = 6;

/// The data of a checked token instruction.
pub open spec fn checked_data(tag: u8, amount: u64, decimals: u8) -> Seq<u8> {
    seq![tag] + le_bytes(amount as nat, 8) + seq![decimals]
}

/// Lays out the data of a checked token instruction.
fn build_checked_data(tag: u8, amount: u64, decimals: u8) -> (data: [u8; 10])
    ensures
        data@ == checked_data(tag, amount, decimals),
{
    let mut bytes: Vec<u8> = Vec::with_capacity(10);
    bytes.push(tag);
    push_le(&mut bytes, amount as u128, 8);
    bytes.push(decimals);
    proof {
        lemma_le_bytes_len(amount as nat, 8);
        assert(bytes@ =~= checked_data(tag, amount, decimals));
    }
    let data: [u8; 10] = read_array(bytes.as_slice(), 0);
    assert(data@ =~= bytes@);
    data
}

/// The data of a checked transfer of `amount`.
pub fn data_transfer_checked(amount: u64, decimals: u8) -> (data: [u8; 10])
    ensures
        data@ == checked_data(IX_TRANSFER_CHECKED, amount, decimals),
{
    build_checked_data(IX_TRANSFER_CHECKED, amount, decimals)
}

/// The data of a checked mint of `amount`.
pub fn data_mint_to_checked(amount: u64, decimals: u8) -> (data: [u8; 10])
    ensures
        data@ == checked_data(IX_MINT_TO_CHECKED, amount, decimals),
{
    build_checked_data(IX_MINT_TO_CHECKED, amount, decimals)
}

/// The data of a checked burn of `amount`.
pub fn data_burn_checked(amount: u64, decimals: u8) -> (data: [u8; 10])
    ensures
        data@ == checked_data(IX_BURN_CHECKED, amount, decimals),
{
    build_checked_data(IX_BURN_CHECKED, amount, decimals)
}

/// One request to the token program, named by what it is for.
#[derive(Clone, Copy, Debug, PartialEq, Eq)]
pub enum TokenCall {
    /// The depositor's tokens go into the vault's custody.
    PullDeposit { amount: u64, decimals: u8 },
    /// Shares are minted to the depositor.
    MintShares { shares: u64 },
    /// The withdrawer's shares are burnt.
    BurnShares { shares: u64 },
    /// The vault's custody pays the withdrawer.
    PayWithdrawal { amount: u64, decimals: u8 },
    /// The donor's tokens go into the vault's custody.
    PullDonation { amount: u64, decimals: u8 },
    /// The boost part of a donation goes on to the boost custody.
    ForwardBoost { amount: u64, decimals: u8 },
    /// The boost custody pays a claimer.
    PayClaim { amount: u64 },
}

impl TokenCall {
    /// The ten bytes of data of this request.
    pub open spec fn data_spec(self) -> Seq<u8> {
        match self {
            TokenCall::PullDeposit { amount, decimals } => checked_data(
                IX_TRANSFER_CHECKED,
                amount,
                decimals,
            ),
            TokenCall::MintShares { shares } => checked_data(
                IX_MINT_TO_CHECKED,
                shares,
                SHARE_DECIMALS,
            ),
            TokenCall::BurnShares { shares } => checked_data(IX_BURN_CHECKED, shares, SHARE_DECIMALS),
            TokenCall::PayWithdrawal { amount, decimals } => checked_data(
                IX_TRANSFER_CHECKED,
                amount,
                decimals,
            ),
            TokenCall::PullDonation { amount, decimals } => checked_data(
                IX_TRANSFER_CHECKED,
                amount,
                decimals,
            ),
            TokenCall::ForwardBoost { amount, decimals } => checked_data(
                IX_TRANSFER_CHECKED,
                amount,
                decimals,
            ),
            TokenCall::PayClaim { amount } => checked_data(
                IX_TRANSFER_CHECKED,
                amount,
                SHARE_DECIMALS,
            ),
        }
    }

    /// Whether the vault's own authority signs this request. The others
    /// are signed by whoever asked for the operation.
    pub open spec fn vault_signed_spec(self) -> bool {
        match self {
            TokenCall::PullDeposit { .. } => false,
            TokenCall::MintShares { .. } => true,
            TokenCall::BurnShares { .. } => false,
            TokenCall::PayWithdrawal { .. } => true,
            TokenCall::PullDonation { .. } => false,
            TokenCall::ForwardBoost { .. } => true,
            TokenCall::PayClaim { .. } => true,
        }
    }

    /// The ten bytes of data of this request.
    pub fn data(&self) -> (data: [u8; 10])
        ensures
            data@ == self.data_spec(),
    {
        match *self {
            TokenCall::PullDeposit { amount, decimals } => data_transfer_checked(amount, decimals),
            TokenCall::MintShares { shares } => data_mint_to_checked(shares, SHARE_DECIMALS),
            TokenCall::BurnShares { shares } => data_burn_checked(shares, SHARE_DECIMALS),
            TokenCall::PayWithdrawal { amount, decimals } => data_transfer_checked(
                amount,
                decimals,
            ),
            TokenCall::PullDonation { amount, decimals } => data_transfer_checked(amount, decimals),
            TokenCall::ForwardBoost { amount, decimals } => data_transfer_checked(amount, decimals),
            TokenCall::PayClaim { amount } => data_transfer_checked(amount, SHARE_DECIMALS),
        }
    }

    /// Whether the vault's own authority signs this request.
    pub fn vault_signed(&self) -> (signed: bool)
        ensures
            signed == self.vault_signed_spec(),
    {
        match *self {
            TokenCall::PullDeposit { .. } => false,
            TokenCall::MintShares { .. } => true,
            TokenCall::BurnShares { .. } => false,
            TokenCall::PayWithdrawal { .. } => true,
            TokenCall::PullDonation { .. } => false,
            TokenCall::ForwardBoost { .. } => true,
            TokenCall::PayClaim { .. } => true,
        }
    }
}

} // verus!
