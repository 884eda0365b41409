//! What the rounding of the share accounting guarantees over whole
//! histories of a vault.

use vstd::prelude::*;
use crate::math::lemma_mul_div_floor_bounds;
use crate::state::{VaultState, RAY};
use crate::vault::{
    amount_for, apply_yield_spec, deposit_spec, price_rise, settle_spec, shares_for, withdraw_spec,
};

verus! {

/// A deposit of an amount, or a withdrawal of a number of shares.
pub enum Movement {
    Deposit(u64),
    Withdraw(u64),
}

/// The vault after one movement. A movement that is refused changes
/// nothing.
pub open spec fn state_after(st: VaultState, movement: Movement) -> VaultState {
    match movement {
        Movement::Deposit(amount) => match deposit_spec(st, amount) {
            Ok((after, _)) => after,
            Err(_) => st,
        },
        Movement::Withdraw(shares) => match withdraw_spec(st, shares) {
            Ok((after, _)) => after,
            Err(_) => st,
        },
    }
}

/// What one movement pays into the vault.
pub open spec fn paid_in(st: VaultState, movement: Movement) -> nat {
    match movement {
        Movement::Deposit(amount) => if deposit_spec(st, amount) is Ok {
            amount as nat
        } else {
            0
        },
        Movement::Withdraw(_) => 0,
    }
}

/// What one movement takes out of the vault.
pub open spec fn paid_out(st: VaultState, movement: Movement) -> nat {
    match movement {
        Movement::Deposit(_) => 0,
        Movement::Withdraw(shares) => match withdraw_spec(st, shares) {
            Ok((_, amount)) => amount as nat,
            Err(_) => 0,
        },
    }
}

/// Whether the division of one movement leaves no remainder. A movement
/// that is refused divides nothing.
pub open spec fn divides_exactly(st: VaultState, movement: Movement) -> bool {
    match movement {
        Movement::Deposit(amount) => deposit_spec(st, amount) is Ok ==> (amount * RAY) % (
        st.pps as int) == 0,
        Movement::Withdraw(shares) => withdraw_spec(st, shares) is Ok ==> (shares * st.pps) % (
        RAY as int) == 0,
    }
}

/// The vault after a sequence of movements.
pub open spec fn replay(start: VaultState, moves: Seq<Movement>) -> VaultState
    decreases moves.len(),
{
    if moves.len() == 0 {
        start
    } else {
        state_after(replay(start, moves.drop_last()), moves.last())
    }
}

/// All that a sequence of movements pays into the vault.
pub open spec fn total_deposited(start: VaultState, moves: Seq<Movement>) -> nat
    decreases moves.len(),
{
    if moves.len() == 0 {
        0
    } else {
        total_deposited(start, moves.drop_last()) + paid_in(
            replay(start, moves.drop_last()),
            moves.last(),
        )
    }
}

/// All that a sequence of movements takes out of the vault.
pub open spec fn total_withdrawn(start: VaultState, moves: Seq<Movement>) -> nat
    decreases moves.len(),
{
    if moves.len() == 0 {
        0
    } else {
        total_withdrawn(start, moves.drop_last()) + paid_out(
            replay(start, moves.drop_last()),
            moves.last(),
        )
    }
}

/// Whether every division in a sequence of movements leaves no remainder.
pub open spec fn every_division_exact(start: VaultState, moves: Seq<Movement>) -> bool
    decreases moves.len(),
{
    moves.len() == 0 || (every_division_exact(start, moves.drop_last()) && divides_exactly(
        replay(start, moves.drop_last()),
        moves.last(),
    ))
}

/// Without yield, what has been withdrawn and what the remaining shares
/// are worth never exceeds what has been deposited.
proof fn lemma_replay_invariant(start: VaultState, moves: Seq<Movement>)
    requires
        start.pps > 0,
        start.total_shares == 0,
        start.buffered_base == 0,
    ensures
        replay(start, moves).pps == start.pps,
        replay(start, moves).buffered_base == 0,
        total_withdrawn(start, moves) * RAY + replay(start, moves).total_shares * start.pps
            <= total_deposited(start, moves) * RAY,
        total_withdrawn(start, moves) * RAY + replay(start, moves).total_shares * start.pps
            == total_deposited(start, moves) * RAY ==> every_division_exact(start, moves),
    decreases moves.len(),
{
    if moves.len() == 0 {
        assert(0 * RAY + 0 * start.pps == 0 * RAY) by (nonlinear_arith);
    } else {
        let before = replay(start, moves.drop_last());
        let dep = total_deposited(start, moves.drop_last());
        let wd = total_withdrawn(start, moves.drop_last());
        let pps = start.pps;
        let held = before.total_shares;
        lemma_replay_invariant(start, moves.drop_last());
        match moves.last() {
            Movement::Deposit(amount) => {
                assert(settle_spec(before) == Ok::<VaultState, crate::error::VaultError>(before));
                if deposit_spec(before, amount) is Ok {
                    let shares = shares_for(amount, pps);
                    lemma_mul_div_floor_bounds(amount as nat, RAY as nat, pps as nat);
                    assert(wd * RAY + (held + shares) * pps == wd * RAY + held * pps + shares
                        * pps) by (nonlinear_arith);
                    assert((dep + amount) * RAY == dep * RAY + amount * RAY) by (nonlinear_arith);
                }
            },
            Movement::Withdraw(shares) => {
                if withdraw_spec(before, shares) is Ok {
                    let amount = amount_for(shares, pps);
                    lemma_mul_div_floor_bounds(shares as nat, pps as nat, RAY as nat);
                    assert((wd + amount) * RAY + (held - shares) * pps == wd * RAY + held * pps
                        + amount * RAY - shares * pps) by (nonlinear_arith);
                }
            },
        }
    }
}

/// Over any sequence of deposits and withdrawals on a vault that starts
/// without shares and receives no yield, no more is withdrawn than was
/// deposited, and as much only if no division left a remainder.
pub proof fn lemma_rounding_favors_vault(start: VaultState, moves: Seq<Movement>)
    requires
        start.pps > 0,
        start.total_shares == 0,
        start.buffered_base == 0,
    ensures
        total_withdrawn(start, moves) <= total_deposited(start, moves),
        total_withdrawn(start, moves) == total_deposited(start, moves) ==> every_division_exact(
            start,
            moves,
        ),
{
    lemma_replay_invariant(start, moves);
    let wd = total_withdrawn(start, moves);
    let dep = total_deposited(start, moves);
    let held = replay(start, moves).total_shares;
    let pps = start.pps;
    assert(0 <= held * pps) by (nonlinear_arith)
        requires
            0 <= held,
            0 <= pps,
    ;
    assert(wd <= dep) by (nonlinear_arith)
        requires
            wd * RAY <= dep * RAY,
            RAY > 0,
    ;
}

/// Every quotient is rounded toward the vault: the shares minted are
/// worth no more than the deposit, the amount paid out is worth no more
/// than the shares redeemed, and the rise of the price over all shares is
/// no more than the yield.
pub proof fn lemma_rounding_direction(st: VaultState, amount: u64)
    requires
        st.wf(),
    ensures
        deposit_spec(st, amount) matches Ok((after, shares)) ==> shares * after.pps <= amount
            * RAY,
        withdraw_spec(st, amount) matches Ok((_, paid)) ==> paid * RAY <= amount * st.pps,
        apply_yield_spec(st, amount) matches Ok(after) ==> (after.pps - st.pps) * st.total_shares
            <= amount * RAY,
{
    if deposit_spec(st, amount) is Ok {
        let settled = settle_spec(st)->Ok_0;
        lemma_mul_div_floor_bounds(amount as nat, RAY as nat, settled.pps as nat);
    }
    if withdraw_spec(st, amount) is Ok {
        lemma_mul_div_floor_bounds(amount as nat, st.pps as nat, RAY as nat);
    }
    if apply_yield_spec(st, amount) is Ok {
        if st.total_shares > 0 {
            lemma_mul_div_floor_bounds(amount as nat, RAY as nat, st.total_shares as nat);
        } else {
            assert(0 <= amount * RAY) by (nonlinear_arith);
            assert((st.pps - st.pps) * st.total_shares == 0) by (nonlinear_arith);
        }
    }
}

/// A vault is solvent with a balance when the balance covers the value of
/// every share at the current price, and the buffer.
pub open spec fn solvent(st: VaultState, balance: nat) -> bool {
    balance * RAY >= st.total_shares * st.pps + st.buffered_base * RAY
}

/// Settling the buffer keeps a vault solvent with the same balance.
pub proof fn lemma_settle_keeps_solvent(st: VaultState, balance: nat)
    requires
        solvent(st, balance),
        settle_spec(st) is Ok,
    ensures
        solvent(settle_spec(st)->Ok_0, balance),
{
    let after = settle_spec(st)->Ok_0;
    if st.buffered_base > 0 && st.total_shares > 0 {
        let rise = price_rise(st.buffered_base, st.total_shares);
        lemma_mul_div_floor_bounds(st.buffered_base as nat, RAY as nat, st.total_shares as nat);
        assert(st.total_shares * (st.pps + rise) == st.total_shares * st.pps + rise
            * st.total_shares) by (nonlinear_arith);
        assert(0 * RAY == 0) by (nonlinear_arith);
    }
}

/// A deposit keeps a vault solvent, the amount deposited added to the
/// balance.
pub proof fn lemma_deposit_keeps_solvent(st: VaultState, amount: u64, balance: nat)
    requires
        st.pps > 0,
        solvent(st, balance),
        deposit_spec(st, amount) is Ok,
    ensures
        solvent(deposit_spec(st, amount)->Ok_0.0, balance + amount as nat),
{
    let settled = settle_spec(st)->Ok_0;
    lemma_settle_keeps_solvent(st, balance);
    let shares = shares_for(amount, settled.pps);
    lemma_mul_div_floor_bounds(amount as nat, RAY as nat, settled.pps as nat);
    assert((settled.total_shares + shares) * settled.pps == settled.total_shares * settled.pps
        + shares * settled.pps) by (nonlinear_arith);
    assert((balance + amount) * RAY == balance * RAY + amount * RAY) by (nonlinear_arith);
}

/// A withdrawal never pays out more than the balance of a solvent vault,
/// and leaves the vault solvent with what remains.
pub proof fn lemma_withdraw_keeps_solvent(st: VaultState, shares: u64, balance: nat)
    requires
        solvent(st, balance),
        withdraw_spec(st, shares) is Ok,
    ensures
        withdraw_spec(st, shares)->Ok_0.1 <= balance,
        solvent(withdraw_spec(st, shares)->Ok_0.0, (balance - withdraw_spec(st, shares)->Ok_0.1) as nat),
{
    let amount = amount_for(shares, st.pps);
    lemma_mul_div_floor_bounds(shares as nat, st.pps as nat, RAY as nat);
    assert(shares * st.pps <= st.total_shares * st.pps) by (nonlinear_arith)
        requires
            shares <= st.total_shares,
            0 <= st.pps,
    ;
    assert(0 <= st.buffered_base * RAY) by (nonlinear_arith);
    assert(amount <= balance) by (nonlinear_arith)
        requires
            amount * RAY <= balance * RAY,
            RAY > 0,
    ;
    assert((st.total_shares - shares) * st.pps == st.total_shares * st.pps - shares * st.pps)
        by (nonlinear_arith);
    assert((balance - amount) * RAY == balance * RAY - amount * RAY) by (nonlinear_arith);
}

/// Yield keeps a vault solvent, the amount received added to the balance.
pub proof fn lemma_yield_keeps_solvent(st: VaultState, amount: u64, balance: nat)
    requires
        solvent(st, balance),
        apply_yield_spec(st, amount) is Ok,
    ensures
        solvent(apply_yield_spec(st, amount)->Ok_0, balance + amount as nat),
{
    let after = apply_yield_spec(st, amount)->Ok_0;
    assert((balance + amount) * RAY == balance * RAY + amount * RAY) by (nonlinear_arith);
    if st.total_shares > 0 {
        let rise = price_rise(amount, st.total_shares);
        lemma_mul_div_floor_bounds(amount as nat, RAY as nat, st.total_shares as nat);
        assert(st.total_shares * (st.pps + rise) == st.total_shares * st.pps + rise
            * st.total_shares) by (nonlinear_arith);
    } else {
        assert(after.buffered_base * RAY <= (st.buffered_base + amount) * RAY)
            by (nonlinear_arith)
            requires
                after.buffered_base <= st.buffered_base + amount,
        ;
        assert((st.buffered_base + amount) * RAY == st.buffered_base * RAY + amount * RAY)
            by (nonlinear_arith);
    }
}

/// The price of a share never falls, and only yield raises it: a deposit
/// raises it by folding a buffer of earlier yield into it and not
/// otherwise, and a withdrawal leaves it as it is.
pub proof fn lemma_price_never_falls(st: VaultState, amount: u64)
    ensures
        settle_spec(st) is Ok ==> settle_spec(st)->Ok_0.pps >= st.pps,
        deposit_spec(st, amount) is Ok ==> deposit_spec(st, amount)->Ok_0.0.pps >= st.pps,
        deposit_spec(st, amount) is Ok && st.buffered_base == 0 ==> deposit_spec(
            st,
            amount,
        )->Ok_0.0.pps == st.pps,
        withdraw_spec(st, amount) is Ok ==> withdraw_spec(st, amount)->Ok_0.0.pps == st.pps,
        apply_yield_spec(st, amount) is Ok ==> apply_yield_spec(st, amount)->Ok_0.pps >= st.pps,
{
}

/// Settling twice is settling once: the buffer goes into the price a
/// single time, and a second call finds nothing to do.
pub proof fn lemma_settle_is_idempotent(st: VaultState)
    requires
        settle_spec(st) is Ok,
    ensures
        settle_spec(settle_spec(st)->Ok_0) == settle_spec(st),
{
}

/// A buffer met by a deposit into a vault that has shares is folded into
/// the price by exactly its worth per share, and is empty afterwards, so
/// that no later deposit can fold it again.
pub proof fn lemma_deposit_folds_buffer_once(st: VaultState, amount: u64)
    requires
        st.total_shares > 0,
        deposit_spec(st, amount) is Ok,
    ensures
        deposit_spec(st, amount)->Ok_0.0.buffered_base == 0,
        deposit_spec(st, amount)->Ok_0.0.pps == st.pps + if st.buffered_base > 0 {
            price_rise(st.buffered_base, st.total_shares)
        } else {
            0
        },
{
}

} // verus!
