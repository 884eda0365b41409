//! The payloads of the six operations.
//!
//! The first byte of an instruction selects the operation; the fields of
//! the operation follow it at fixed offsets, integers little-endian. A
//! payload may be longer than its fields: what follows them is ignored.

use vstd::prelude::*;
use crate::codec::{
    array_of, le_value, read_array, read_u128_le, read_u16_le, read_u32_le, read_u64_le,
};
use crate::error::VaultError;

verus! {

/// The operations of the vault, in the order of their selectors 0 to 5.
#[derive(Clone, Copy, Debug, PartialEq, Eq, Structural)]
pub enum Operation {
    Init,
    Deposit,
    Withdraw,
    Donate,
    PostRoot,
    Claim,
}

/// The payload of `Init`.
#[derive(Clone, Copy, Debug, PartialEq, Eq)]
pub struct InitArgs {
    pub decimals: u8,
}

/// The payload of `Deposit`.
#[derive(Clone, Copy, Debug, PartialEq, Eq)]
pub struct DepositArgs {
    pub amount: u64,
    pub usdc_decimals: u8,
}

/// The payload of `Withdraw`.
#[derive(Clone, Copy, Debug, PartialEq, Eq)]
pub struct WithdrawArgs {
    pub shares: u64,
    pub usdc_decimals: u8,
}

/// The payload of `Donate`.
#[derive(Clone, Copy, Debug, PartialEq, Eq)]
pub struct DonateArgs {
    pub amount: u64,
    pub epoch: u64,
    pub boost_bps: u16,
    pub usdc_decimals: u8,
}

/// The payload of `PostRoot`.
#[derive(Clone, Copy, Debug, PartialEq, Eq)]
pub struct PostRootArgs {
    pub epoch: u64,
    pub total_weight: u128,
    pub root: [u8; 32],
}

/// The payload of `Claim`.
#[derive(Debug, PartialEq, Eq)]
pub struct ClaimArgs {
    pub epoch: u64,
    pub index: u32,
    pub weight: u128,
    pub proof: Vec<[u8; 32]>,
}

/// The operation that a selector byte stands for.
pub open spec fn operation_of(tag: u8) -> Option<Operation> {
    if tag == 0 {
        Some(Operation::Init)
    } else if tag == 1 {
        Some(Operation::Deposit)
    } else if tag == 2 {
        Some(Operation::Withdraw)
    } else if tag == 3 {
        Some(Operation::Donate)
    } else if tag == 4 {
        Some(Operation::PostRoot)
    } else if tag == 5 {
        Some(Operation::Claim)
    } else {
        None
    }
}

/// The bytes of `data` from `at` up to `at + width`.
pub open spec fn field(data: Seq<u8>, at: int, width: int) -> Seq<u8> {
    data.subrange(at, at + width)
}

/// Reads the selector of an instruction.
///
/// Fails with `MalformedInput` exactly when the instruction is empty or
/// its first byte selects no operation. The payload of the operation is
/// the instruction without its first byte.
pub fn select_operation(ix_data: &[u8]) -> (r: Result<Operation, VaultError>)
    ensures
        r == if ix_data@.len() == 0 {
            Err::<Operation, VaultError>(VaultError::MalformedInput)
        } else {
            match operation_of(ix_data@[0]) {
                Some(op) => Ok::<Operation, VaultError>(op),
                None => Err::<Operation, VaultError>(VaultError::MalformedInput),
            }
        },
{
    if ix_data.len() == 0 {
        return Err(VaultError::MalformedInput);
    }
    let tag: u8 = ix_data[0];
    if tag == 0 {
        Ok(Operation::Init)
    } else if tag == 1 {
        Ok(Operation::Deposit)
    } else if tag == 2 {
        Ok(Operation::Withdraw)
    } else if tag == 3 {
        Ok(Operation::Donate)
    } else if tag == 4 {
        Ok(Operation::PostRoot)
    } else if tag == 5 {
        Ok(Operation::Claim)
    } else {
        Err(VaultError::MalformedInput)
    }
}

impl InitArgs {
    /// One byte of decimals.
    pub open spec fn parse_spec(payload: Seq<u8>) -> Result<InitArgs, VaultError> {
        if payload.len() < 1 {
            Err(VaultError::MalformedInput)
        } else {
            Ok(InitArgs { decimals: payload[0] })
        }
    }

    /// Reads the payload of `Init`.
    pub fn parse(payload: &[u8]) -> (r: Result<InitArgs, VaultError>)
        ensures
            r == Self::parse_spec(payload@),
    {
        if payload.len() < 1 {
            return Err(VaultError::MalformedInput);
        }
        Ok(InitArgs { decimals: payload[0] })
    }
}

impl DepositArgs {
    /// The amount in 8 bytes, then the decimals.
    pub open spec fn parse_spec(payload: Seq<u8>) -> Result<DepositArgs, VaultError> {
        if payload.len() < 9 {
            Err(VaultError::MalformedInput)
        } else {
            Ok(
                DepositArgs {
                    amount: le_value(field(payload, 0, 8)) as u64,
                    usdc_decimals: payload[8],
                },
            )
        }
    }

    /// Reads the payload of `Deposit`.
    pub fn parse(payload: &[u8]) -> (r: Result<DepositArgs, VaultError>)
        ensures
            r == Self::parse_spec(payload@),
    {
        if payload.len() < 9 {
            return Err(VaultError::MalformedInput);
        }
        Ok(DepositArgs { amount: read_u64_le(payload, 0), usdc_decimals: payload[8] })
    }
}

impl WithdrawArgs {
    /// The shares in 8 bytes, then the decimals.
    pub open spec fn parse_spec(payload: Seq<u8>) -> Result<WithdrawArgs, VaultError> {
        if payload.len() < 9 {
            Err(VaultError::MalformedInput)
        } else {
            Ok(
                WithdrawArgs {
                    shares: le_value(field(payload, 0, 8)) as u64,
                    usdc_decimals: payload[8],
                },
            )
        }
    }

    /// Reads the payload of `Withdraw`.
    pub fn parse(payload: &[u8]) -> (r: Result<WithdrawArgs, VaultError>)
        ensures
            r == Self::parse_spec(payload@),
    {
        if payload.len() < 9 {
            return Err(VaultError::MalformedInput);
        }
        Ok(WithdrawArgs { shares: read_u64_le(payload, 0), usdc_decimals: payload[8] })
    }
}

impl DonateArgs {
    /// The amount in 8 bytes, the epoch in 8, the basis points in 2, then
    /// the decimals.
    pub open spec fn parse_spec(payload: Seq<u8>) -> Result<DonateArgs, VaultError> {
        if payload.len() < 19 {
            Err(VaultError::MalformedInput)
        } else {
            Ok(
                DonateArgs {
                    amount: le_value(field(payload, 0, 8)) as u64,
                    epoch: le_value(field(payload, 8, 8)) as u64,
                    boost_bps: le_value(field(payload, 16, 2)) as u16,
                    usdc_decimals: payload[18],
                },
            )
        }
    }

    /// Reads the payload of `Donate`.
    pub fn parse(payload: &[u8]) -> (r: Result<DonateArgs, VaultError>)
        ensures
            r == Self::parse_spec(payload@),
    {
        if payload.len() < 19 {
            return Err(VaultError::MalformedInput);
        }
        Ok(
            DonateArgs {
                amount: read_u64_le(payload, 0),
                epoch: read_u64_le(payload, 8),
                boost_bps: read_u16_le(payload, 16),
                usdc_decimals: payload[18],
            },
        )
    }
}

impl PostRootArgs {
    /// The epoch in 8 bytes, the total weight in 16, then the root.
    pub open spec fn parse_spec(payload: Seq<u8>) -> Result<PostRootArgs, VaultError> {
        if payload.len() < 56 {
            Err(VaultError::MalformedInput)
        } else {
            Ok(
                PostRootArgs {
                    epoch: le_value(field(payload, 0, 8)) as u64,
                    total_weight: le_value(field(payload, 8, 16)) as u128,
                    root: array_of::<32>(field(payload, 24, 32)),
                },
            )
        }
    }

    /// Reads the payload of `PostRoot`.
    pub fn parse(payload: &[u8]) -> (r: Result<PostRootArgs, VaultError>)
        ensures
            r == Self::parse_spec(payload@),
    {
        if payload.len() < 56 {
            return Err(VaultError::MalformedInput);
        }
        Ok(
            PostRootArgs {
                epoch: read_u64_le(payload, 0),
                total_weight: read_u128_le(payload, 8),
                root: read_array(payload, 24),
            },
        )
    }
}

/// The number of bytes before the siblings of a `Claim` payload.
pub const CLAIM_HEADER_LEN: usize = 29;

/// The siblings that a `Claim` payload carries: as many as its byte 28
/// says, 32 bytes each, from byte 29 on.
pub open spec fn proof_nodes(payload: Seq<u8>) -> Seq<[u8; 32]> {
    Seq::new(payload[28] as nat, |i: int| array_of::<32>(field(payload, 29 + 32 * i, 32)))
}

/// A claim as its payload states it.
pub ghost struct ClaimRequest {
    pub epoch: u64,
    pub index: u32,
    pub weight: u128,
    pub proof: Seq<[u8; 32]>,
}

impl View for ClaimArgs {
    type V = ClaimRequest;

    open spec fn view(&self) -> ClaimRequest {
        ClaimRequest {
            epoch: self.epoch,
            index: self.index,
            weight: self.weight,
            proof: self.proof@,
        }
    }
}

impl ClaimArgs {
    /// The epoch in 8 bytes, the index in 4, the weight in 16, the number
    /// of siblings in 1, and that many siblings. A payload that ends
    /// before its last sibling does is malformed; the number of siblings
    /// is not judged here.
    pub open spec fn parse_spec(payload: Seq<u8>) -> Result<ClaimRequest, VaultError> {
        if payload.len() < 29 || payload.len() < 29 + 32 * payload[28] {
            Err(VaultError::MalformedInput)
        } else {
            Ok(
                ClaimRequest {
                    epoch: le_value(field(payload, 0, 8)) as u64,
                    index: le_value(field(payload, 8, 4)) as u32,
                    weight: le_value(field(payload, 12, 16)) as u128,
                    proof: proof_nodes(payload),
                },
            )
        }
    }

    /// Reads the payload of `Claim`.
    pub fn parse(payload: &[u8]) -> (r: Result<ClaimArgs, VaultError>)
        ensures
            match Self::parse_spec(payload@) {
                Ok(request) => r is Ok && r->Ok_0@ == request,
                Err(e) => r == Err::<ClaimArgs, VaultError>(e),
            },
    {
        let len: usize = payload.len();
        if len < CLAIM_HEADER_LEN {
            return Err(VaultError::MalformedInput);
        }
        let count: usize = payload[28] as usize;
        if len - CLAIM_HEADER_LEN < 32 * count {
            return Err(VaultError::MalformedInput);
        }
        let mut proof: Vec<[u8; 32]> = Vec::with_capacity(count);
        let mut k: usize = 0;
        while k < count
            invariant
                k <= count,
                count == payload@[28],
                29 + 32 * count <= len == payload@.len(),
                proof@.len() == k,
                forall|j: int| 0 <= j < k ==> proof@[j] == proof_nodes(payload@)[j],
            decreases count - k,
        {
            let node: [u8; 32] = read_array(payload, CLAIM_HEADER_LEN + 32 * k);
            proof.push(node);
            k = k + 1;
        }
        assert(proof@ =~= proof_nodes(payload@));
        Ok(
            ClaimArgs {
                epoch: read_u64_le(payload, 0),
                index: read_u32_le(payload, 8),
                weight: read_u128_le(payload, 12),
                proof,
            },
        )
    }
}

} // verus!
