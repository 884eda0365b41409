//! Share accounting: deposits, withdrawals and yield.
//!
//! Shares are priced by `pps`, the price per share at scale [`RAY`]. Every
//! quotient is rounded down, which is toward the vault: a depositor gets
//! no more shares than paid for, a withdrawer no more than the shares are
//! worth, and the price rises by no more than the yield received.

use vstd::prelude::*;
use crate::codec::{array_of, lemma_array_of};
use crate::error::VaultError;
use crate::math::mul_div_floor;
use crate::state::{Pubkey, VaultState, RAY};

verus! {

/// The shares that `amount` buys at the price `pps`.
pub open spec fn shares_for(amount: u64, pps: u128) -> nat {
    mul_div_floor(amount as nat, RAY as nat, pps as nat)
}

/// The amount that `shares` are redeemed for at the price `pps`.
pub open spec fn amount_for(shares: u64, pps: u128) -> nat {
    mul_div_floor(shares as nat, pps as nat, RAY as nat)
}

/// By how much `amount` of yield raises the price of `total_shares`.
pub open spec fn price_rise(amount: u64, total_shares: u128) -> nat {
    mul_div_floor(amount as nat, RAY as nat, total_shares as nat)
}

/// A new vault: no shares, no buffer, the price 1.0, the padding zero.
pub open spec fn initial_state(
    admin: Pubkey,
    operator: Pubkey,
    usdc_mint: Pubkey,
    share_mint: Pubkey,
    vault_pda: Pubkey,
    vault_bump: u8,
) -> VaultState {
    VaultState {
        admin,
        operator,
        usdc_mint,
        share_mint,
        vault_pda,
        vault_bump,
        _pad1: array_of::<7>(Seq::new(7, |i: int| 0u8)),
        total_shares: 0,
        pps: RAY,
        buffered_base: 0,
        last_settle_slot: 0,
    }
}

/// The vault after its buffer has been settled: where both a buffer and
/// shares exist the buffer goes into the price, else nothing changes.
pub open spec fn settle_spec(st: VaultState) -> Result<VaultState, VaultError> {
    if st.buffered_base > 0 && st.total_shares > 0 {
        let pps = st.pps + price_rise(st.buffered_base, st.total_shares);
        if pps > u128::MAX {
            Err(VaultError::ArithmeticOverflow)
        } else {
            Ok(VaultState { pps: pps as u128, buffered_base: 0, ..st })
        }
    } else {
        Ok(st)
    }
}

/// The vault after a deposit of `amount`, and the shares to mint.
pub open spec fn deposit_spec(st: VaultState, amount: u64) -> Result<(VaultState, u64), VaultError> {
    match settle_spec(st) {
        Err(e) => Err(e),
        Ok(settled) => {
            let shares = shares_for(amount, settled.pps);
            if shares > u64::MAX {
                Err(VaultError::AmountTooLarge)
            } else if settled.total_shares + shares > u128::MAX {
                Err(VaultError::ArithmeticOverflow)
            } else {
                Ok(
                    (
                        VaultState {
                            total_shares: (settled.total_shares + shares) as u128,
                            ..settled
                        },
                        shares as u64,
                    ),
                )
            }
        },
    }
}

/// The vault after `shares` have been redeemed, and the amount to pay out.
pub open spec fn withdraw_spec(st: VaultState, shares: u64) -> Result<(VaultState, u64), VaultError> {
    if shares > st.total_shares {
        Err(VaultError::InsufficientShares)
    } else if shares * st.pps > u128::MAX {
        Err(VaultError::ArithmeticOverflow)
    } else if amount_for(shares, st.pps) > u64::MAX {
        Err(VaultError::AmountTooLarge)
    } else {
        Ok(
            (
                VaultState { total_shares: (st.total_shares - shares) as u128, ..st },
                amount_for(shares, st.pps) as u64,
            ),
        )
    }
}

/// The vault after `amount` of yield: it raises the price where shares
/// exist, and is buffered, clamped at the top of 64 bits, where none do.
pub open spec fn apply_yield_spec(st: VaultState, amount: u64) -> Result<VaultState, VaultError> {
    if st.total_shares > 0 {
        let pps = st.pps + price_rise(amount, st.total_shares);
        if pps > u128::MAX {
            Err(VaultError::ArithmeticOverflow)
        } else {
            Ok(VaultState { pps: pps as u128, ..st })
        }
    } else {
        let buffered = if st.buffered_base + amount > u64::MAX {
            u64::MAX
        } else {
            (st.buffered_base + amount) as u64
        };
        Ok(VaultState { buffered_base: buffered, ..st })
    }
}

impl VaultState {
    /// Whether the record can be the record of a vault: its price is not
    /// zero. A vault starts with the price 1.0, and no operation lowers it.
    pub open spec fn wf(&self) -> bool {
        self.pps > 0
    }

    /// Whether the record can be the record of a vault.
    pub fn is_wf(&self) -> (wf: bool)
        ensures
            wf == self.wf(),
    {
        self.pps > 0
    }

    /// A vault with no shares, no buffer, and the price 1.0.
    pub fn initialize(
        admin: Pubkey,
        operator: Pubkey,
        usdc_mint: Pubkey,
        share_mint: Pubkey,
        vault_pda: Pubkey,
        vault_bump: u8,
    ) -> (st: VaultState)
        ensures
            st == initial_state(admin, operator, usdc_mint, share_mint, vault_pda, vault_bump),
            st.wf(),
    {
        let pad: [u8; 7] = [0u8; 7];
        proof {
            lemma_array_of::<7>(Seq::new(7, |i: int| 0u8));
            assert(pad@ =~= Seq::new(7, |i: int| 0u8));
        }
        VaultState {
            admin,
            operator,
            usdc_mint,
            share_mint,
            vault_pda,
            vault_bump,
            _pad1: pad,
            total_shares: 0,
            pps: RAY,
            buffered_base: 0,
            last_settle_slot: 0,
        }
    }

    /// Folds the buffer into the price, if there is a buffer and there are
    /// shares to take it; otherwise does nothing.
    ///
    /// Fails with `ArithmeticOverflow`, changing nothing, when the new price
    /// does not fit in 128 bits.
    pub fn settle_buffer(&mut self) -> (r: Result<(), VaultError>)
        ensures
            match settle_spec(*old(self)) {
                Ok(settled) => r is Ok && *final(self) == settled,
                Err(e) => r == Err::<(), VaultError>(e) && *final(self) == *old(self),
            },
            old(self).wf() ==> final(self).wf(),
    {
        if self.buffered_base > 0 && self.total_shares > 0 {
            let rise: u128 = raise_for(self.buffered_base, self.total_shares);
            match self.pps.checked_add(rise) {
                None => {
                    return Err(VaultError::ArithmeticOverflow);
                },
                Some(pps) => {
                    self.pps = pps;
                    self.buffered_base = 0;
                },
            }
        }
        Ok(())
    }

    /// Takes a deposit of `amount` and returns the shares to mint for it.
    ///
    /// The buffer is settled first, so that the depositor pays the price
    /// that includes it. Fails, changing nothing, with `ArithmeticOverflow`
    /// when the settled price or the new share total does not fit in 128
    /// bits, and with `AmountTooLarge` when the shares do not fit in 64.
    pub fn deposit(&mut self, amount: u64) -> (r: Result<u64, VaultError>)
        requires
            old(self).wf(),
        ensures
            match deposit_spec(*old(self), amount) {
                Ok((after, shares)) => r == Ok::<u64, VaultError>(shares) && *final(self) == after,
                Err(e) => r == Err::<u64, VaultError>(e) && *final(self) == *old(self),
            },
            final(self).wf(),
    {
        let mut settled: VaultState = *self;
        match settled.settle_buffer() {
            Err(e) => {
                return Err(e);
            },
            Ok(_) => {},
        }
        assert(amount * RAY <= u64::MAX * RAY) by (nonlinear_arith)
            requires
                amount <= u64::MAX,
        ;
        let shares: u128 = (amount as u128 * RAY) / settled.pps;
        if shares > u64::MAX as u128 {
            return Err(VaultError::AmountTooLarge);
        }
        match settled.total_shares.checked_add(shares) {
            None => Err(VaultError::ArithmeticOverflow),
            Some(total) => {
                settled.total_shares = total;
                *self = settled;
                Ok(shares as u64)
            },
        }
    }

    /// Redeems `shares` and returns the amount to pay out for them.
    ///
    /// Fails, changing nothing, with `InsufficientShares` when more shares
    /// are redeemed than exist, with `ArithmeticOverflow` when their value
    /// at scale does not fit in 128 bits, and with `AmountTooLarge` when
    /// the amount does not fit in 64.
    pub fn withdraw(&mut self, shares: u64) -> (r: Result<u64, VaultError>)
        ensures
            match withdraw_spec(*old(self), shares) {
                Ok((after, amount)) => r == Ok::<u64, VaultError>(amount) && *final(self) == after,
                Err(e) => r == Err::<u64, VaultError>(e) && *final(self) == *old(self),
            },
            old(self).wf() ==> final(self).wf(),
    {
        if shares as u128 > self.total_shares {
            return Err(VaultError::InsufficientShares);
        }
        match (shares as u128).checked_mul(self.pps) {
            None => Err(VaultError::ArithmeticOverflow),
            Some(scaled) => {
                let amount: u128 = scaled / RAY;
                if amount > u64::MAX as u128 {
                    return Err(VaultError::AmountTooLarge);
                }
                self.total_shares = self.total_shares - shares as u128;
                Ok(amount as u64)
            },
        }
    }

    /// Receives `amount` of yield: raises the price where shares exist, and
    /// adds to the buffer where none do.
    ///
    /// The price is checked: on overflow the call fails with
    /// `ArithmeticOverflow` and changes nothing. The buffer saturates.
    pub fn apply_yield(&mut self, amount: u64) -> (r: Result<(), VaultError>)
        ensures
            match apply_yield_spec(*old(self), amount) {
                Ok(after) => r is Ok && *final(self) == after,
                Err(e) => r == Err::<(), VaultError>(e) && *final(self) == *old(self),
            },
            old(self).wf() ==> final(self).wf(),
    {
        if self.total_shares > 0 {
            let rise: u128 = raise_for(amount, self.total_shares);
            match self.pps.checked_add(rise) {
                None => Err(VaultError::ArithmeticOverflow),
                Some(pps) => {
                    self.pps = pps;
                    Ok(())
                },
            }
        } else {
            self.buffered_base = self.buffered_base.saturating_add(amount);
            Ok(())
        }
    }
}

/// `amount * RAY / total_shares`, rounded down.
fn raise_for(amount: u64, total_shares: u128) -> (rise: u128)
    requires
        total_shares > 0,
    ensures
        rise == price_rise(amount, total_shares),
{
    assert(amount * RAY <= u64::MAX * RAY) by (nonlinear_arith)
        requires
            amount <= u64::MAX,
    ;
    (amount as u128 * RAY) / total_shares
}

} // verus!
