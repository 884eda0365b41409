//! The six operations, from payload to token requests.
//!
//! Each operation is given what the caller has found out about the
//! accounts (who signed, which addresses were supplied), the records it
//! works on, and its payload. It checks, computes, updates the records and
//! returns the requests to send to the token program, in order. The caller
//! sends them and stores the records; if any request fails, the caller
//! must drop the updated records, so that the operation takes effect as a
//! whole or not at all.
//!
//! An operation that returns an error has changed nothing.

use vstd::prelude::*;
use crate::claim::{claim, claim_spec};
use crate::codec::push_bytes;
use crate::donation::{donate, donate_spec};
use crate::error::VaultError;
use crate::hash::nodes_equal;
use crate::instruction::{
    ClaimArgs, DepositArgs, DonateArgs, InitArgs, PostRootArgs, WithdrawArgs,
};
use crate::layout::BOOST_DISTRIBUTOR_LEN;
use crate::state::{BoostDistributor, ClaimBitmap256, Pubkey, VaultState};
use crate::token::TokenCall;
use crate::vault::{deposit_spec, initial_state, withdraw_spec};

verus! {

/// The label that the vault's authority is derived from: the ASCII bytes
/// of `vault`.
pub const SEED_VAULT: [u8; 5] = [0x76, 0x61, 0x75, 0x6c, 0x74];

/// What `Init` needs to know of its accounts.
#[derive(Clone, Copy, Debug, PartialEq, Eq)]
pub struct InitAccounts {
    pub admin_signed: bool,
    pub admin: Pubkey,
    pub operator: Pubkey,
    pub usdc_mint: Pubkey,
    pub share_mint: Pubkey,
    /// The address supplied as the vault's authority.
    pub vault_pda: Pubkey,
}

/// What `Deposit` needs to know of its accounts.
#[derive(Clone, Copy, Debug, PartialEq, Eq)]
pub struct DepositAccounts {
    pub user_signed: bool,
    pub vault_pda: Pubkey,
    pub share_mint: Pubkey,
    pub usdc_mint: Pubkey,
}

/// What `Withdraw`, `Donate` and `Claim` need to know of their accounts:
/// whether the one who asks has signed, who that is, and the address
/// supplied as the vault's authority.
#[derive(Clone, Copy, Debug, PartialEq, Eq)]
pub struct ActorAccounts {
    pub actor_signed: bool,
    pub actor: Pubkey,
    pub vault_pda: Pubkey,
}

/// The seeds from which the address of a vault's authority is derived:
/// the label, the base mint and the admin.
pub open spec fn address_seeds(usdc_mint: Pubkey, admin: Pubkey) -> Seq<Seq<u8>> {
    seq![SEED_VAULT@, usdc_mint@, admin@]
}

/// The four seeds with which the vault signs: the label, the base mint,
/// the admin, and the stored nonce.
pub open spec fn signer_seeds(st: VaultState) -> Seq<Seq<u8>> {
    seq![SEED_VAULT@, st.usdc_mint@, st.admin@, seq![st.vault_bump]]
}

/// The outcome of `Init`.
pub open spec fn init_spec(
    accounts: InitAccounts,
    derived: Pubkey,
    bump: u8,
    payload: Seq<u8>,
) -> Result<VaultState, VaultError> {
    if !accounts.admin_signed {
        Err(VaultError::AuthenticationFailure)
    } else if InitArgs::parse_spec(payload) is Err {
        Err(VaultError::MalformedInput)
    } else if accounts.vault_pda != derived {
        Err(VaultError::AddressMismatch)
    } else {
        Ok(
            initial_state(
                accounts.admin,
                accounts.operator,
                accounts.usdc_mint,
                accounts.share_mint,
                derived,
                bump,
            ),
        )
    }
}

/// The outcome of `Deposit`: the vault afterwards and the requests.
pub open spec fn deposit_op_spec(
    st: VaultState,
    accounts: DepositAccounts,
    payload: Seq<u8>,
) -> Result<(VaultState, Seq<TokenCall>), VaultError> {
    if !accounts.user_signed {
        Err(VaultError::AuthenticationFailure)
    } else {
        match DepositArgs::parse_spec(payload) {
            Err(e) => Err(e),
            Ok(args) => if accounts.vault_pda != st.vault_pda || accounts.share_mint
                != st.share_mint || accounts.usdc_mint != st.usdc_mint {
                Err(VaultError::AddressMismatch)
            } else {
                match deposit_spec(st, args.amount) {
                    Err(e) => Err(e),
                    Ok((after, shares)) => Ok(
                        (
                            after,
                            seq![
                                TokenCall::PullDeposit {
                                    amount: args.amount,
                                    decimals: args.usdc_decimals,
                                },
                                TokenCall::MintShares { shares },
                            ],
                        ),
                    ),
                }
            },
        }
    }
}

/// The outcome of `Withdraw`: the vault afterwards and the requests.
pub open spec fn withdraw_op_spec(
    st: VaultState,
    accounts: ActorAccounts,
    payload: Seq<u8>,
) -> Result<(VaultState, Seq<TokenCall>), VaultError> {
    if !accounts.actor_signed {
        Err(VaultError::AuthenticationFailure)
    } else {
        match WithdrawArgs::parse_spec(payload) {
            Err(e) => Err(e),
            Ok(args) => if accounts.vault_pda != st.vault_pda {
                Err(VaultError::AddressMismatch)
            } else {
                match withdraw_spec(st, args.shares) {
                    Err(e) => Err(e),
                    Ok((after, amount)) => Ok(
                        (
                            after,
                            seq![
                                TokenCall::BurnShares { shares: args.shares },
                                TokenCall::PayWithdrawal { amount, decimals: args.usdc_decimals },
                            ],
                        ),
                    ),
                }
            },
        }
    }
}

/// The requests of a donation: the whole amount is pulled from the donor,
/// and the boost part, unless it is nothing, goes on to the boost custody.
pub open spec fn donation_calls(amount: u64, boost: u64, decimals: u8) -> Seq<TokenCall> {
    if boost > 0 {
        seq![
            TokenCall::PullDonation { amount, decimals },
            TokenCall::ForwardBoost { amount: boost, decimals },
        ]
    } else {
        seq![TokenCall::PullDonation { amount, decimals }]
    }
}

/// The outcome of `Donate`: the vault and the epoch record afterwards, and
/// the requests.
pub open spec fn donate_op_spec(
    st: VaultState,
    record: Option<BoostDistributor>,
    accounts: ActorAccounts,
    payload: Seq<u8>,
) -> Result<(VaultState, Option<BoostDistributor>, Seq<TokenCall>), VaultError> {
    if !accounts.actor_signed {
        Err(VaultError::AuthenticationFailure)
    } else {
        match DonateArgs::parse_spec(payload) {
            Err(e) => Err(e),
            Ok(args) => if accounts.vault_pda != st.vault_pda {
                Err(VaultError::AddressMismatch)
            } else {
                match donate_spec(st, record, args.amount, args.epoch, args.boost_bps) {
                    Err(e) => Err(e),
                    Ok((vault, credited, split)) => Ok(
                        (
                            vault,
                            credited,
                            donation_calls(args.amount, split.boost, args.usdc_decimals),
                        ),
                    ),
                }
            },
        }
    }
}

/// The outcome of `PostRoot`: the epoch record afterwards.
pub open spec fn post_root_op_spec(
    bd: BoostDistributor,
    operator_signed: bool,
    payload: Seq<u8>,
) -> Result<BoostDistributor, VaultError> {
    if !operator_signed {
        Err(VaultError::AuthenticationFailure)
    } else {
        match PostRootArgs::parse_spec(payload) {
            Err(e) => Err(e),
            Ok(args) => Ok(bd.post_root_spec(args.epoch, args.total_weight, args.root)),
        }
    }
}

/// The outcome of `Claim`: the payout.
pub open spec fn claim_op_spec(
    st: VaultState,
    bd: BoostDistributor,
    bitmap: ClaimBitmap256,
    accounts: ActorAccounts,
    payload: Seq<u8>,
) -> Result<u64, VaultError> {
    if !accounts.actor_signed {
        Err(VaultError::AuthenticationFailure)
    } else {
        match ClaimArgs::parse_spec(payload) {
            Err(e) => Err(e),
            Ok(request) => if accounts.vault_pda != st.vault_pda {
                Err(VaultError::AddressMismatch)
            } else {
                claim_spec(
                    bd,
                    bitmap,
                    request.epoch,
                    request.index,
                    request.weight,
                    accounts.actor,
                    request.proof,
                )
            },
        }
    }
}

/// Fails with `AuthenticationFailure` unless the account has signed.
pub fn require_signer(signed: bool) -> (r: Result<(), VaultError>)
    ensures
        r == if signed {
            Ok::<(), VaultError>(())
        } else {
            Err::<(), VaultError>(VaultError::AuthenticationFailure)
        },
{
    if signed {
        Ok(())
    } else {
        Err(VaultError::AuthenticationFailure)
    }
}

/// Fails with `AddressMismatch` unless `supplied` is the address
/// `expected`.
pub fn require_address(expected: &Pubkey, supplied: &Pubkey) -> (r: Result<(), VaultError>)
    ensures
        r == if *supplied == *expected {
            Ok::<(), VaultError>(())
        } else {
            Err::<(), VaultError>(VaultError::AddressMismatch)
        },
{
    if nodes_equal(supplied, expected) {
        Ok(())
    } else {
        Err(VaultError::AddressMismatch)
    }
}

/// Whether an account stands for an epoch record: it is owned as the
/// vault record is, and is long enough to hold one.
pub fn holds_epoch_record(same_owner: bool, data_len: usize) -> (held: bool)
    ensures
        held == (same_owner && data_len >= BOOST_DISTRIBUTOR_LEN),
{
    same_owner && data_len >= BOOST_DISTRIBUTOR_LEN
}

/// The seeds from which the address of the vault's authority is derived.
pub fn vault_address_seeds(usdc_mint: &Pubkey, admin: &Pubkey) -> (seeds: Vec<Vec<u8>>)
    ensures
        seeds@.len() == 3,
        forall|i: int| 0 <= i < 3 ==> seeds@[i]@ == address_seeds(*usdc_mint, *admin)[i],
{
    let mut label: Vec<u8> = Vec::new();
    push_bytes(&mut label, SEED_VAULT.as_slice());
    let mut mint: Vec<u8> = Vec::new();
    push_bytes(&mut mint, usdc_mint.as_slice());
    let mut owner: Vec<u8> = Vec::new();
    push_bytes(&mut owner, admin.as_slice());
    let mut seeds: Vec<Vec<u8>> = Vec::new();
    seeds.push(label);
    seeds.push(mint);
    seeds.push(owner);
    assert(seeds@[0]@ =~= SEED_VAULT@);
    assert(seeds@[1]@ =~= usdc_mint@);
    assert(seeds@[2]@ =~= admin@);
    seeds
}

/// The four seeds with which the vault signs its requests.
pub fn vault_signer_seeds(st: &VaultState) -> (seeds: Vec<Vec<u8>>)
    ensures
        seeds@.len() == 4,
        forall|i: int| 0 <= i < 4 ==> seeds@[i]@ == signer_seeds(*st)[i],
{
    let mut seeds = vault_address_seeds(&st.usdc_mint, &st.admin);
    let ghost three = seeds@;
    let mut nonce: Vec<u8> = Vec::new();
    nonce.push(st.vault_bump);
    seeds.push(nonce);
    assert(seeds@[3]@ =~= seq![st.vault_bump]);
    assert forall|i: int| 0 <= i < 4 implies seeds@[i]@ == signer_seeds(*st)[i] by {
        if i < 3 {
            assert(seeds@[i] == three[i]);
            assert(three[i]@ == address_seeds(st.usdc_mint, st.admin)[i]);
        }
    }
    seeds
}

/// Derives the address that a program owns under `seeds`, and the nonce
/// that completes them.
///
/// Calls `pinocchio::pubkey::try_find_program_address`, which asks the
/// host for the derivation and returns `None` where the host finds no
/// address or offers no derivation at all. Nothing is claimed of what
/// comes back.
#[verifier::external_body]
pub(crate) fn find_program_address(seeds: &Vec<Vec<u8>>, program_id: &Pubkey) -> (r: Option<
    (Pubkey, u8),
>) {
    let parts: Vec<&[u8]> = seeds.iter().map(|seed| seed.as_slice()).collect();
    pinocchio::pubkey::try_find_program_address(&parts, program_id)
}

/// `Init`, with the derivation left to the host: derives the vault's
/// authority for `program_id` from the seeds of [`vault_address_seeds`]
/// and makes the record of a new vault.
///
/// Whatever the host derives, the outcome is that of [`process_init`] for
/// it. Where the host derives nothing, no supplied authority can be the
/// right one: the outcome is that of a derivation to another address.
pub fn init_vault(program_id: &Pubkey, accounts: &InitAccounts, payload: &[u8]) -> (r: Result<
    VaultState,
    VaultError,
>)
    ensures
        !accounts.admin_signed ==> r == Err::<VaultState, VaultError>(
            VaultError::AuthenticationFailure,
        ),
        accounts.admin_signed && payload@.len() == 0 ==> r == Err::<VaultState, VaultError>(
            VaultError::MalformedInput,
        ),
        accounts.admin_signed && payload@.len() > 0 ==> r == Err::<VaultState, VaultError>(
            VaultError::AddressMismatch,
        ) || exists|bump: u8| r == init_spec(*accounts, accounts.vault_pda, bump, payload@),
        r is Ok ==> r->Ok_0.wf(),
{
    let seeds = vault_address_seeds(&accounts.usdc_mint, &accounts.admin);
    match find_program_address(&seeds, program_id) {
        Some((derived, bump)) => process_init(accounts, &derived, bump, payload),
        None => {
            match require_signer(accounts.admin_signed) {
                Err(e) => {
                    return Err(e);
                },
                Ok(_) => {},
            }
            match InitArgs::parse(payload) {
                Err(e) => Err(e),
                Ok(_) => Err(VaultError::AddressMismatch),
            }
        },
    }
}

/// `Init`: makes the record of a new vault.
///
/// `derived` and `bump` are the address and nonce that the seeds of
/// [`vault_address_seeds`] derive for the program. Fails with
/// `AuthenticationFailure` unless the admin signed, with `MalformedInput`
/// on an empty payload, and with `AddressMismatch` unless the supplied
/// authority is the derived one, in that order.
pub fn process_init(accounts: &InitAccounts, derived: &Pubkey, bump: u8, payload: &[u8]) -> (r:
    Result<VaultState, VaultError>)
    ensures
        r == init_spec(*accounts, *derived, bump, payload@),
        r is Ok ==> r->Ok_0.wf(),
{
    match require_signer(accounts.admin_signed) {
        Err(e) => {
            return Err(e);
        },
        Ok(_) => {},
    }
    match InitArgs::parse(payload) {
        Err(e) => {
            return Err(e);
        },
        Ok(_) => {},
    }
    match require_address(derived, &accounts.vault_pda) {
        Err(e) => {
            return Err(e);
        },
        Ok(_) => {},
    }
    Ok(
        VaultState::initialize(
            accounts.admin,
            accounts.operator,
            accounts.usdc_mint,
            accounts.share_mint,
            *derived,
            bump,
        ),
    )
}

/// `Deposit`: takes the amount of the payload into the vault.
///
/// Returns the requests to send: the transfer of the amount from the
/// depositor, then the mint of the shares.
pub fn process_deposit(vault: &mut VaultState, accounts: &DepositAccounts, payload: &[u8]) -> (r:
    Result<Vec<TokenCall>, VaultError>)
    requires
        old(vault).wf(),
    ensures
        final(vault).wf(),
        match deposit_op_spec(*old(vault), *accounts, payload@) {
            Ok((after, calls)) => r is Ok && r->Ok_0@ == calls && *final(vault) == after,
            Err(e) => r == Err::<Vec<TokenCall>, VaultError>(e) && *final(vault) == *old(vault),
        },
{
    match require_signer(accounts.user_signed) {
        Err(e) => {
            return Err(e);
        },
        Ok(_) => {},
    }
    let args = match DepositArgs::parse(payload) {
        Err(e) => {
            return Err(e);
        },
        Ok(args) => args,
    };
    if !nodes_equal(&accounts.vault_pda, &vault.vault_pda) || !nodes_equal(
        &accounts.share_mint,
        &vault.share_mint,
    ) || !nodes_equal(&accounts.usdc_mint, &vault.usdc_mint) {
        return Err(VaultError::AddressMismatch);
    }
    match vault.deposit(args.amount) {
        Err(e) => Err(e),
        Ok(shares) => {
            let mut calls: Vec<TokenCall> = Vec::new();
            calls.push(
                TokenCall::PullDeposit { amount: args.amount, decimals: args.usdc_decimals },
            );
            calls.push(TokenCall::MintShares { shares });
            assert(calls@ =~= deposit_op_spec(*old(vault), *accounts, payload@)->Ok_0.1);
            Ok(calls)
        },
    }
}

/// `Withdraw`: redeems the shares of the payload.
///
/// Returns the requests to send: the burn of the shares, then the
/// transfer of their worth to the withdrawer.
pub fn process_withdraw(vault: &mut VaultState, accounts: &ActorAccounts, payload: &[u8]) -> (r:
    Result<Vec<TokenCall>, VaultError>)
    ensures
        old(vault).wf() ==> final(vault).wf(),
        match withdraw_op_spec(*old(vault), *accounts, payload@) {
            Ok((after, calls)) => r is Ok && r->Ok_0@ == calls && *final(vault) == after,
            Err(e) => r == Err::<Vec<TokenCall>, VaultError>(e) && *final(vault) == *old(vault),
        },
{
    match require_signer(accounts.actor_signed) {
        Err(e) => {
            return Err(e);
        },
        Ok(_) => {},
    }
    let args = match WithdrawArgs::parse(payload) {
        Err(e) => {
            return Err(e);
        },
        Ok(args) => args,
    };
    match require_address(&vault.vault_pda, &accounts.vault_pda) {
        Err(e) => {
            return Err(e);
        },
        Ok(_) => {},
    }
    match vault.withdraw(args.shares) {
        Err(e) => Err(e),
        Ok(amount) => {
            let mut calls: Vec<TokenCall> = Vec::new();
            calls.push(TokenCall::BurnShares { shares: args.shares });
            calls.push(TokenCall::PayWithdrawal { amount, decimals: args.usdc_decimals });
            assert(calls@ =~= withdraw_op_spec(*old(vault), *accounts, payload@)->Ok_0.1);
            Ok(calls)
        },
    }
}

/// `Donate`: receives the donation of the payload.
///
/// `record` is the epoch record, where one was supplied. Returns the
/// requests to send: the transfer of the whole amount from the donor,
/// then, unless the boost part is nothing, its transfer to the boost
/// custody.
pub fn process_donate(
    vault: &mut VaultState,
    record: &mut Option<BoostDistributor>,
    accounts: &ActorAccounts,
    payload: &[u8],
) -> (r: Result<Vec<TokenCall>, VaultError>)
    ensures
        old(vault).wf() ==> final(vault).wf(),
        match donate_op_spec(*old(vault), *old(record), *accounts, payload@) {
            Ok((vault_after, record_after, calls)) => r is Ok && r->Ok_0@ == calls && *final(vault)
                == vault_after && *final(record) == record_after,
            Err(e) => r == Err::<Vec<TokenCall>, VaultError>(e) && *final(vault) == *old(vault)
                && *final(record) == *old(record),
        },
{
    match require_signer(accounts.actor_signed) {
        Err(e) => {
            return Err(e);
        },
        Ok(_) => {},
    }
    let args = match DonateArgs::parse(payload) {
        Err(e) => {
            return Err(e);
        },
        Ok(args) => args,
    };
    match require_address(&vault.vault_pda, &accounts.vault_pda) {
        Err(e) => {
            return Err(e);
        },
        Ok(_) => {},
    }
    match donate(vault, record, args.amount, args.epoch, args.boost_bps) {
        Err(e) => Err(e),
        Ok(split) => {
            let mut calls: Vec<TokenCall> = Vec::new();
            calls.push(
                TokenCall::PullDonation { amount: args.amount, decimals: args.usdc_decimals },
            );
            if split.boost > 0 {
                calls.push(
                    TokenCall::ForwardBoost { amount: split.boost, decimals: args.usdc_decimals },
                );
            }
            assert(calls@ =~= donation_calls(args.amount, split.boost, args.usdc_decimals));
            Ok(calls)
        },
    }
}

/// `PostRoot`: binds the epoch record to the epoch, total weight and root
/// of the payload.
///
/// Fails with `AuthenticationFailure` unless the poster signed. Who the
/// poster must be is not decided here.
pub fn process_post_root(bd: &mut BoostDistributor, operator_signed: bool, payload: &[u8]) -> (r:
    Result<(), VaultError>)
    ensures
        match post_root_op_spec(*old(bd), operator_signed, payload@) {
            Ok(after) => r is Ok && *final(bd) == after,
            Err(e) => r == Err::<(), VaultError>(e) && *final(bd) == *old(bd),
        },
{
    match require_signer(operator_signed) {
        Err(e) => {
            return Err(e);
        },
        Ok(_) => {},
    }
    match PostRootArgs::parse(payload) {
        Err(e) => Err(e),
        Ok(args) => {
            bd.post_root(args.epoch, args.total_weight, args.root);
            Ok(())
        },
    }
}

/// `Claim`: pays the claim of the payload to the one who asks.
///
/// Returns the one request to send: the transfer of the payout from the
/// boost custody to the claimer. The claim's flag is set in `bitmap`.
pub fn process_claim(
    vault: &VaultState,
    bd: &BoostDistributor,
    bitmap: &mut ClaimBitmap256,
    accounts: &ActorAccounts,
    payload: &[u8],
) -> (r: Result<Vec<TokenCall>, VaultError>)
    ensures
        match claim_op_spec(*vault, *bd, *old(bitmap), *accounts, payload@) {
            Ok(payout) => r is Ok && r->Ok_0@ == seq![TokenCall::PayClaim { amount: payout }]
                && final(bitmap)@ == old(bitmap)@.insert(
                ClaimArgs::parse_spec(payload@)->Ok_0.index as int,
            ),
            Err(e) => r == Err::<Vec<TokenCall>, VaultError>(e) && *final(bitmap) == *old(bitmap),
        },
{
    match require_signer(accounts.actor_signed) {
        Err(e) => {
            return Err(e);
        },
        Ok(_) => {},
    }
    let args = match ClaimArgs::parse(payload) {
        Err(e) => {
            return Err(e);
        },
        Ok(args) => args,
    };
    match require_address(&vault.vault_pda, &accounts.vault_pda) {
        Err(e) => {
            return Err(e);
        },
        Ok(_) => {},
    }
    match claim(
        bd,
        bitmap,
        args.epoch,
        args.index,
        args.weight,
        &accounts.actor,
        args.proof.as_slice(),
    ) {
        Err(e) => Err(e),
        Ok(payout) => {
            let mut calls: Vec<TokenCall> = Vec::new();
            calls.push(TokenCall::PayClaim { amount: payout });
            assert(calls@ =~= seq![TokenCall::PayClaim { amount: payout }]);
            Ok(calls)
        },
    }
}

} // verus!
