//! An interest-bearing pooled vault.
//!
//! Depositors receive shares priced by an accumulating price per share;
//! donations raise that price, and a part of every donation funds a boost
//! pool that is paid out once per claim index against a merkle root.
//!
//! The accounting lives in [`vault`], [`donation`], [`epoch`] and
//! [`claim`]; [`ledger`] states what the rounding guarantees over whole
//! histories. [`layout`] and [`instruction`] hold the byte formats,
//! [`ops`] the six operations from payload to token requests.

pub mod claim;
pub mod codec;
pub mod donation;
pub mod epoch;
pub mod error;
pub mod hash;
pub mod instruction;
pub mod layout;
pub mod ledger;
pub mod math;
pub mod merkle;
pub mod ops;
pub mod state;
pub mod token;
pub mod vault;

pub use crate::error::VaultError;
pub use crate::merkle::verify_merkle;
pub use crate::state::{BoostDistributor, ClaimBitmap256, Pubkey, VaultState, RAY};
pub use crate::token::{data_burn_checked, data_mint_to_checked, data_transfer_checked};
