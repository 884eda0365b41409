use interest_vault::claim::leaf_hash;
use interest_vault::instruction::{select_operation, Operation};
use interest_vault::merkle::hash_pair;
use interest_vault::ops::{
    holds_epoch_record, init_vault, process_claim, process_deposit, process_donate, process_init,
    process_post_root, process_withdraw, require_address, require_signer, vault_address_seeds,
    vault_signer_seeds, ActorAccounts, DepositAccounts, InitAccounts,
};
use interest_vault::token::TokenCall;
use interest_vault::{BoostDistributor, ClaimBitmap256, VaultError, VaultState, RAY};

const ADMIN: [u8; 32] = [1; 32];
const OPERATOR: [u8; 32] = [2; 32];
const USDC_MINT: [u8; 32] = [3; 32];
const SHARE_MINT: [u8; 32] = [4; 32];
const VAULT_PDA: [u8; 32] = [5; 32];
const USER: [u8; 32] = [6; 32];

fn init_accounts() -> InitAccounts {
    InitAccounts {
        admin_signed: true,
        admin: ADMIN,
        operator: OPERATOR,
        usdc_mint: USDC_MINT,
        share_mint: SHARE_MINT,
        vault_pda: VAULT_PDA,
    }
}

fn vault() -> VaultState {
    VaultState::initialize(ADMIN, OPERATOR, USDC_MINT, SHARE_MINT, VAULT_PDA, 253)
}

fn deposit_accounts() -> DepositAccounts {
    DepositAccounts {
        user_signed: true,
        vault_pda: VAULT_PDA,
        share_mint: SHARE_MINT,
        usdc_mint: USDC_MINT,
    }
}

fn actor() -> ActorAccounts {
    ActorAccounts { actor_signed: true, actor: USER, vault_pda: VAULT_PDA }
}

fn amount_payload(amount: u64, decimals: u8) -> Vec<u8> {
    let mut payload = amount.to_le_bytes().to_vec();
    payload.push(decimals);
    payload
}

fn donate_payload(amount: u64, epoch: u64, bps: u16, decimals: u8) -> Vec<u8> {
    let mut payload = amount.to_le_bytes().to_vec();
    payload.extend_from_slice(&epoch.to_le_bytes());
    payload.extend_from_slice(&bps.to_le_bytes());
    payload.push(decimals);
    payload
}

fn claim_payload(epoch: u64, index: u32, weight: u128, proof: &[[u8; 32]]) -> Vec<u8> {
    let mut payload = epoch.to_le_bytes().to_vec();
    payload.extend_from_slice(&index.to_le_bytes());
    payload.extend_from_slice(&weight.to_le_bytes());
    payload.push(proof.len() as u8);
    for node in proof {
        payload.extend_from_slice(node);
    }
    payload
}

#[test]
fn init_vault_succeeds() {
    // instruction data: [tag = Init, decimals = 6]
    let data = vec![0u8, 6u8];
    assert_eq!(select_operation(&data), Ok(Operation::Init));

    // accounts: vault_state, admin (signer), operator, usdc_mint, share_mint, vault_pda;
    // the authority is the address derived from "vault", the mint and the admin
    let seeds = vault_address_seeds(&USDC_MINT, &ADMIN);
    assert_eq!(seeds, vec![b"vault".to_vec(), USDC_MINT.to_vec(), ADMIN.to_vec()]);
    let (derived, bump) = (VAULT_PDA, 253u8);

    let res = process_init(&init_accounts(), &derived, bump, &data[1..]);
    assert!(res.is_ok());
    let st = res.unwrap();
    assert_eq!(st, vault());
    assert_eq!(st.pps, RAY);
    assert_eq!(st.total_shares, 0);
    assert_eq!(st.buffered_base, 0);
    assert_eq!(st.vault_pda, derived);
    assert_eq!(st.vault_bump, 253);
}

#[test]
fn init_needs_the_admin_signature() {
    let accounts = InitAccounts { admin_signed: false, ..init_accounts() };
    assert_eq!(
        process_init(&accounts, &VAULT_PDA, 253, &[6]),
        Err(VaultError::AuthenticationFailure)
    );
    // the signature is looked at before the payload and the address
    assert_eq!(
        process_init(&accounts, &[9; 32], 253, &[]),
        Err(VaultError::AuthenticationFailure)
    );
}

#[test]
fn init_needs_its_payload() {
    assert_eq!(
        process_init(&init_accounts(), &VAULT_PDA, 253, &[]),
        Err(VaultError::MalformedInput)
    );
    assert_eq!(
        process_init(&init_accounts(), &[9; 32], 253, &[]),
        Err(VaultError::MalformedInput)
    );
}

#[test]
fn init_needs_the_derived_authority() {
    let mut derived = VAULT_PDA;
    derived[31] ^= 1;
    assert_eq!(
        process_init(&init_accounts(), &derived, 253, &[6]),
        Err(VaultError::AddressMismatch)
    );
}

#[test]
fn init_without_a_host_derivation_finds_no_authority() {
    let program_id = [0x77u8; 32];
    // off chain the host derives nothing, so no supplied authority fits
    assert_eq!(
        init_vault(&program_id, &init_accounts(), &[6]),
        Err(VaultError::AddressMismatch)
    );
    assert_eq!(
        init_vault(&program_id, &init_accounts(), &[]),
        Err(VaultError::MalformedInput)
    );
    let unsigned = InitAccounts { admin_signed: false, ..init_accounts() };
    assert_eq!(
        init_vault(&program_id, &unsigned, &[6]),
        Err(VaultError::AuthenticationFailure)
    );
}

#[test]
fn signer_seeds_are_label_mint_admin_nonce() {
    let st = vault();
    assert_eq!(
        vault_signer_seeds(&st),
        vec![b"vault".to_vec(), USDC_MINT.to_vec(), ADMIN.to_vec(), vec![253u8]]
    );
}

#[test]
fn deposit_pulls_the_amount_and_mints_the_shares() {
    let mut st = vault();
    st.pps = 2 * RAY;
    let calls = process_deposit(&mut st, &deposit_accounts(), &amount_payload(1001, 9));
    assert_eq!(
        calls,
        Ok(vec![
            TokenCall::PullDeposit { amount: 1001, decimals: 9 },
            TokenCall::MintShares { shares: 500 },
        ])
    );
    assert_eq!(st.total_shares, 500);
}

#[test]
fn deposit_refusals() {
    let st = vault();
    let payload = amount_payload(1000, 6);

    let mut s = st;
    let unsigned = DepositAccounts { user_signed: false, ..deposit_accounts() };
    assert_eq!(
        process_deposit(&mut s, &unsigned, &payload),
        Err(VaultError::AuthenticationFailure)
    );
    assert_eq!(
        process_deposit(&mut s, &deposit_accounts(), &payload[..8]),
        Err(VaultError::MalformedInput)
    );
    let wrong_pda = DepositAccounts { vault_pda: [9; 32], ..deposit_accounts() };
    assert_eq!(process_deposit(&mut s, &wrong_pda, &payload), Err(VaultError::AddressMismatch));
    let wrong_share = DepositAccounts { share_mint: [9; 32], ..deposit_accounts() };
    assert_eq!(process_deposit(&mut s, &wrong_share, &payload), Err(VaultError::AddressMismatch));
    let wrong_usdc = DepositAccounts { usdc_mint: [9; 32], ..deposit_accounts() };
    assert_eq!(process_deposit(&mut s, &wrong_usdc, &payload), Err(VaultError::AddressMismatch));
    s.total_shares = u128::MAX;
    let full = s;
    assert_eq!(
        process_deposit(&mut s, &deposit_accounts(), &payload),
        Err(VaultError::ArithmeticOverflow)
    );
    assert_eq!(s, full);
}

#[test]
fn withdraw_burns_the_shares_and_pays_their_worth() {
    let mut st = vault();
    st.total_shares = 1000;
    st.pps = 1_500_000_000_000;
    let calls = process_withdraw(&mut st, &actor(), &amount_payload(333, 9));
    assert_eq!(
        calls,
        Ok(vec![
            TokenCall::BurnShares { shares: 333 },
            TokenCall::PayWithdrawal { amount: 499, decimals: 9 },
        ])
    );
    assert_eq!(st.total_shares, 667);
}

#[test]
fn withdraw_refusals() {
    let mut st = vault();
    st.total_shares = 10;
    let before = st;
    let payload = amount_payload(11, 6);
    let unsigned = ActorAccounts { actor_signed: false, ..actor() };
    assert_eq!(
        process_withdraw(&mut st, &unsigned, &payload),
        Err(VaultError::AuthenticationFailure)
    );
    assert_eq!(
        process_withdraw(&mut st, &actor(), &payload[..8]),
        Err(VaultError::MalformedInput)
    );
    let wrong_pda = ActorAccounts { vault_pda: [9; 32], ..actor() };
    assert_eq!(process_withdraw(&mut st, &wrong_pda, &payload), Err(VaultError::AddressMismatch));
    assert_eq!(
        process_withdraw(&mut st, &actor(), &payload),
        Err(VaultError::InsufficientShares)
    );
    assert_eq!(st, before);
}

#[test]
fn donate_pulls_the_amount_and_forwards_the_boost() {
    let mut st = vault();
    st.total_shares = 100;
    let mut record = Some(BoostDistributor::unbound());
    let calls = process_donate(&mut st, &mut record, &actor(), &donate_payload(1000, 4, 2500, 6));
    assert_eq!(
        calls,
        Ok(vec![
            TokenCall::PullDonation { amount: 1000, decimals: 6 },
            TokenCall::ForwardBoost { amount: 250, decimals: 6 },
        ])
    );
    assert_eq!(st.pps, RAY + 7_500_000_000_000);
    assert_eq!(record.unwrap().epoch, 4);
    assert_eq!(record.unwrap().boost_total, 250);
}

#[test]
fn donate_without_boost_forwards_nothing() {
    let mut st = vault();
    let mut record = None;
    let calls = process_donate(&mut st, &mut record, &actor(), &donate_payload(1000, 4, 0, 6));
    assert_eq!(calls, Ok(vec![TokenCall::PullDonation { amount: 1000, decimals: 6 }]));
    assert_eq!(st.buffered_base, 1000);
    // a boost part that rounds to nothing is not forwarded either
    let calls = process_donate(&mut st, &mut record, &actor(), &donate_payload(3, 4, 3333, 6));
    assert_eq!(calls, Ok(vec![TokenCall::PullDonation { amount: 3, decimals: 6 }]));
    assert_eq!(st.buffered_base, 1003);
}

#[test]
fn donate_refusals() {
    let mut st = vault();
    let before = st;
    let mut record = Some(BoostDistributor {
        epoch: 4,
        root: [0; 32],
        total_weight: 0,
        boost_total: 1,
        _pad: [0; 8],
    });
    let record_before = record;
    let payload = donate_payload(1000, 5, 2500, 6);
    let unsigned = ActorAccounts { actor_signed: false, ..actor() };
    assert_eq!(
        process_donate(&mut st, &mut record, &unsigned, &payload),
        Err(VaultError::AuthenticationFailure)
    );
    assert_eq!(
        process_donate(&mut st, &mut record, &actor(), &payload[..18]),
        Err(VaultError::MalformedInput)
    );
    let wrong_pda = ActorAccounts { vault_pda: [9; 32], ..actor() };
    assert_eq!(
        process_donate(&mut st, &mut record, &wrong_pda, &payload),
        Err(VaultError::AddressMismatch)
    );
    assert_eq!(
        process_donate(&mut st, &mut record, &actor(), &payload),
        Err(VaultError::EpochMismatch)
    );
    assert_eq!(st, before);
    assert_eq!(record, record_before);
}

#[test]
fn epoch_record_needs_owner_and_length() {
    assert!(holds_epoch_record(true, 72));
    assert!(holds_epoch_record(true, 1000));
    assert!(!holds_epoch_record(true, 71));
    assert!(!holds_epoch_record(false, 72));
    assert!(!holds_epoch_record(false, 0));
}

#[test]
fn post_root_binds_the_epoch() {
    let mut bd = BoostDistributor::unbound();
    bd.boost_total = 40;
    let mut payload = 12u64.to_le_bytes().to_vec();
    payload.extend_from_slice(&300u128.to_le_bytes());
    payload.extend_from_slice(&[0xab; 32]);
    assert_eq!(process_post_root(&mut bd, true, &payload), Ok(()));
    assert_eq!(
        bd,
        BoostDistributor {
            epoch: 12,
            root: [0xab; 32],
            total_weight: 300,
            boost_total: 40,
            _pad: [0; 8],
        }
    );
}

#[test]
fn post_root_refusals() {
    let mut bd = BoostDistributor::unbound();
    let payload = vec![0u8; 56];
    assert_eq!(
        process_post_root(&mut bd, false, &payload),
        Err(VaultError::AuthenticationFailure)
    );
    assert_eq!(process_post_root(&mut bd, true, &payload[..55]), Err(VaultError::MalformedInput));
    assert_eq!(bd, BoostDistributor::unbound());
}

#[test]
fn claim_pays_the_claimer_from_the_boost_custody() {
    let st = vault();
    let own = leaf_hash(3, &USER, 100);
    let other = leaf_hash(4, &[7; 32], 200);
    let root = hash_pair(&own, &other);
    let bd = BoostDistributor { epoch: 12, root, total_weight: 300, boost_total: 900, _pad: [0; 8] };
    let mut bitmap = ClaimBitmap256::new();
    let payload = claim_payload(12, 3, 100, &[other]);
    assert_eq!(
        process_claim(&st, &bd, &mut bitmap, &actor(), &payload),
        Ok(vec![TokenCall::PayClaim { amount: 300 }])
    );
    assert_eq!(bitmap.is_claimed(3), Ok(true));
    let after = bitmap;
    assert_eq!(
        process_claim(&st, &bd, &mut bitmap, &actor(), &payload),
        Err(VaultError::AlreadyClaimed)
    );
    assert_eq!(bitmap, after);
}

#[test]
fn claim_is_bound_to_the_one_who_asks() {
    let st = vault();
    let own = leaf_hash(3, &USER, 100);
    let bd = BoostDistributor { epoch: 12, root: own, total_weight: 300, boost_total: 900, _pad: [0; 8] };
    let mut bitmap = ClaimBitmap256::new();
    let payload = claim_payload(12, 3, 100, &[]);
    let thief = ActorAccounts { actor: [8; 32], ..actor() };
    assert_eq!(
        process_claim(&st, &bd, &mut bitmap, &thief, &payload),
        Err(VaultError::ProofInvalid)
    );
    assert_eq!(bitmap, ClaimBitmap256::new());
}

#[test]
fn claim_refusals() {
    let st = vault();
    let own = leaf_hash(3, &USER, 100);
    let bd = BoostDistributor { epoch: 12, root: own, total_weight: 300, boost_total: 900, _pad: [0; 8] };
    let mut bitmap = ClaimBitmap256::new();
    let payload = claim_payload(12, 3, 100, &[]);
    let unsigned = ActorAccounts { actor_signed: false, ..actor() };
    assert_eq!(
        process_claim(&st, &bd, &mut bitmap, &unsigned, &payload),
        Err(VaultError::AuthenticationFailure)
    );
    assert_eq!(
        process_claim(&st, &bd, &mut bitmap, &actor(), &payload[..28]),
        Err(VaultError::MalformedInput)
    );
    let mut cut = claim_payload(12, 3, 100, &[[0; 32]]);
    cut.pop();
    assert_eq!(
        process_claim(&st, &bd, &mut bitmap, &actor(), &cut),
        Err(VaultError::MalformedInput)
    );
    let wrong_pda = ActorAccounts { vault_pda: [9; 32], ..actor() };
    assert_eq!(
        process_claim(&st, &bd, &mut bitmap, &wrong_pda, &payload),
        Err(VaultError::AddressMismatch)
    );
    let long = claim_payload(12, 3, 100, &[[0; 32]; 17]);
    assert_eq!(
        process_claim(&st, &bd, &mut bitmap, &actor(), &long),
        Err(VaultError::ProofTooLong)
    );
    assert_eq!(bitmap, ClaimBitmap256::new());
}

#[test]
fn require_helpers() {
    assert_eq!(require_signer(true), Ok(()));
    assert_eq!(require_signer(false), Err(VaultError::AuthenticationFailure));
    assert_eq!(require_address(&ADMIN, &ADMIN), Ok(()));
    assert_eq!(require_address(&ADMIN, &OPERATOR), Err(VaultError::AddressMismatch));
}
