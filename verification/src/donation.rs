//! Donations: each is split into base yield for the share holders and
//! boost for the epoch's claimants.

use vstd::prelude::*;
use crate::error::VaultError;
use crate::math::mul_div_floor;
use crate::state::{BoostDistributor, VaultState, RAY};
use crate::vault::apply_yield_spec;

verus! {

/// The basis points that make up the whole of a donation.
pub const BPS_SCALE: u64 = 10_000;

/// The two parts of a donation.
#[derive(Clone, Copy, Debug, PartialEq, Eq)]
pub struct DonationSplit {
    /// What goes to the share holders as yield.
    pub base: u64,
    /// What goes to the boost custody.
    pub boost: u64,
}

/// The boost part of `amount` at `boost_bps` basis points, rounded down.
pub open spec fn boost_part(amount: u64, boost_bps: u16) -> nat {
    mul_div_floor(amount as nat, boost_bps as nat, BPS_SCALE as nat)
}

/// The split of a donation. More than 10000 basis points may ask for more
/// boost than was donated; such a split is refused.
pub open spec fn split_spec(amount: u64, boost_bps: u16) -> Result<DonationSplit, VaultError> {
    if boost_part(amount, boost_bps) > amount {
        Err(VaultError::ArithmeticUnderflow)
    } else {
        Ok(
            DonationSplit {
                base: (amount - boost_part(amount, boost_bps)) as u64,
                boost: boost_part(amount, boost_bps) as u64,
            },
        )
    }
}

/// The vault, the epoch record and the split after a donation.
pub open spec fn donate_spec(
    st: VaultState,
    record: Option<BoostDistributor>,
    amount: u64,
    epoch: u64,
    boost_bps: u16,
) -> Result<(VaultState, Option<BoostDistributor>, DonationSplit), VaultError> {
    match split_spec(amount, boost_bps) {
        Err(e) => Err(e),
        Ok(split) => match apply_yield_spec(st, split.base) {
            Err(e) => Err(e),
            Ok(vault) => match record {
                None => Ok((vault, None, split)),
                Some(bd) => match bd.credit_spec(epoch, split.boost) {
                    Err(e) => Err(e),
                    Ok(credited) => Ok((vault, Some(credited), split)),
                },
            },
        },
    }
}

/// Splits a donation of `amount` into base yield and boost.
///
/// Fails with `ArithmeticUnderflow` exactly when the boost part would
/// exceed the amount.
pub fn split_donation(amount: u64, boost_bps: u16) -> (r: Result<DonationSplit, VaultError>)
    ensures
        r == split_spec(amount, boost_bps),
{
    assert(amount * boost_bps <= u64::MAX * u16::MAX) by (nonlinear_arith)
        requires
            amount <= u64::MAX,
            boost_bps <= u16::MAX,
    ;
    let boost: u128 = (amount as u128 * boost_bps as u128) / (BPS_SCALE as u128);
    if boost > amount as u128 {
        Err(VaultError::ArithmeticUnderflow)
    } else {
        Ok(DonationSplit { base: amount - boost as u64, boost: boost as u64 })
    }
}

/// Receives a donation of `amount`, `boost_bps` basis points of it boost
/// for `epoch`.
///
/// The base part is applied to the vault as yield. Where an epoch record
/// is given, the boost part is collected in it. The split is returned:
/// its boost part is what the caller forwards to the boost custody. On
/// any refusal the vault and the record are left as they were.
pub fn donate(
    vault: &mut VaultState,
    record: &mut Option<BoostDistributor>,
    amount: u64,
    epoch: u64,
    boost_bps: u16,
) -> (r: Result<DonationSplit, VaultError>)
    ensures
        match donate_spec(*old(vault), *old(record), amount, epoch, boost_bps) {
            Ok((vault_after, record_after, split)) => r == Ok::<DonationSplit, VaultError>(split)
                && *final(vault) == vault_after && *final(record) == record_after,
            Err(e) => r == Err::<DonationSplit, VaultError>(e) && *final(vault) == *old(vault)
                && *final(record) == *old(record),
        },
        old(vault).wf() ==> final(vault).wf(),
{
    let split = match split_donation(amount, boost_bps) {
        Err(e) => {
            return Err(e);
        },
        Ok(split) => split,
    };
    let mut after: VaultState = *vault;
    match after.apply_yield(split.base) {
        Err(e) => {
            return Err(e);
        },
        Ok(_) => {},
    }
    match *record {
        None => {},
        Some(bd) => {
            let mut credited: BoostDistributor = bd;
            match credited.credit_boost(epoch, split.boost) {
                Err(e) => {
                    return Err(e);
                },
                Ok(_) => {},
            }
            *record = Some(credited);
        },
    }
    *vault = after;
    Ok(split)
}

/// The two parts of a split add up to the donation.
pub proof fn lemma_split_conserves(amount: u64, boost_bps: u16)
    requires
        split_spec(amount, boost_bps) is Ok,
    ensures
        split_spec(amount, boost_bps)->Ok_0.base + split_spec(amount, boost_bps)->Ok_0.boost
            == amount,
{
}

/// No split is refused at 10000 basis points or fewer.
pub proof fn lemma_split_succeeds(amount: u64, boost_bps: u16)
    requires
        boost_bps <= BPS_SCALE,
    ensures
        split_spec(amount, boost_bps) is Ok,
{
    assert((amount * boost_bps) / (BPS_SCALE as int) <= amount) by (nonlinear_arith)
        requires
            0 <= boost_bps <= 10000,
            0 <= amount,
            BPS_SCALE == 10000,
    ;
}

/// At 0 basis points the whole donation is base yield; at 10000 the whole
/// donation is boost.
pub proof fn lemma_split_extremes(amount: u64)
    ensures
        split_spec(amount, 0) == Ok::<DonationSplit, VaultError>(
            DonationSplit { base: amount, boost: 0 },
        ),
        split_spec(amount, 10000) == Ok::<DonationSplit, VaultError>(
            DonationSplit { base: 0, boost: amount },
        ),
{
    assert((amount * 0) / 10000 == 0) by (nonlinear_arith);
    assert((amount * 10000) / 10000 == amount) by (nonlinear_arith);
}

/// A donation at 0 basis points is yield as a whole and collects no
/// boost; a donation at 10000 basis points is boost as a whole and leaves
/// the vault as it is.
pub proof fn lemma_donation_extremes(
    st: VaultState,
    record: Option<BoostDistributor>,
    amount: u64,
    epoch: u64,
)
    ensures
        donate_spec(st, record, amount, epoch, 0) matches Ok((vault, credited, split)) ==> {
            &&& split == DonationSplit { base: amount, boost: 0 }
            &&& Ok::<VaultState, VaultError>(vault) == apply_yield_spec(st, amount)
            &&& record matches Some(bd) ==> credited->Some_0.boost_total == bd.boost_total
        },
        donate_spec(st, record, amount, epoch, 10000) matches Ok((vault, credited, split)) ==> {
            &&& split == DonationSplit { base: 0, boost: amount }
            &&& vault == st
        },
{
    lemma_split_extremes(amount);
    if st.total_shares > 0 {
        assert((0 * RAY) / (st.total_shares as int) == 0) by (nonlinear_arith)
            requires
                st.total_shares > 0,
        ;
    }
}

} // verus!
