use vstd::prelude::*;

verus! {

/// The reason an operation of the vault was refused.
///
/// An operation that returns an error leaves every record it was given
/// exactly as it found it.
#[derive(Clone, Copy, Debug, PartialEq, Eq, Structural)]
pub enum VaultError {
    /// A required signature is missing.
    AuthenticationFailure,
    /// A supplied address is not the one bound in the vault record.
    AddressMismatch,
    /// A checked sum or product does not fit in 128 bits.
    ArithmeticOverflow,
    /// A checked difference would fall below zero.
    ArithmeticUnderflow,
    /// A token amount does not fit in the 64 bits of a transfer.
    AmountTooLarge,
    /// The epoch named by the caller is not the one bound in the record.
    EpochMismatch,
    /// The claim index has been paid under the bound epoch.
    AlreadyClaimed,
    /// The claim index lies beyond the 256 flags of the bitmap.
    IndexOutOfRange,
    /// The merkle path does not lead from the leaf to the bound root.
    ProofInvalid,
    /// The merkle path has more siblings than a claim may carry.
    ProofTooLong,
    /// No epoch with a positive total weight is bound.
    NoActiveEpoch,
    /// More shares are to be redeemed than exist.
    InsufficientShares,
    /// A payload or record is shorter than its layout, or its tag unknown.
    MalformedInput,
}

} // verus!
