use interest_vault::layout::{BOOST_DISTRIBUTOR_LEN, CLAIM_BITMAP_LEN, VAULT_STATE_LEN};
use interest_vault::{BoostDistributor, ClaimBitmap256, VaultError, VaultState};

fn sample_vault() -> VaultState {
    VaultState {
        admin: [0xa1; 32],
        operator: [0xa2; 32],
        usdc_mint: [0xa3; 32],
        share_mint: [0xa4; 32],
        vault_pda: [0xa5; 32],
        vault_bump: 0xfe,
        _pad1: [1, 2, 3, 4, 5, 6, 7],
        total_shares: 0x100f_0e0d_0c0b_0a09_0807_0605_0403_0201,
        pps: 1_000_000_000_000,
        buffered_base: 0x0807_0605_0403_0201,
        last_settle_slot: 258,
    }
}

#[test]
fn vault_record_layout() {
    assert_eq!(VAULT_STATE_LEN, 216);
    let bytes = sample_vault().to_bytes();
    assert_eq!(bytes.len(), 216);
    assert_eq!(&bytes[0..32], &[0xa1u8; 32]);
    assert_eq!(&bytes[32..64], &[0xa2u8; 32]);
    assert_eq!(&bytes[64..96], &[0xa3u8; 32]);
    assert_eq!(&bytes[96..128], &[0xa4u8; 32]);
    assert_eq!(&bytes[128..160], &[0xa5u8; 32]);
    assert_eq!(bytes[160], 0xfe);
    assert_eq!(&bytes[161..168], &[1u8, 2, 3, 4, 5, 6, 7]);
    assert_eq!(
        &bytes[168..184],
        &[1u8, 2, 3, 4, 5, 6, 7, 8, 9, 10, 11, 12, 13, 14, 15, 16]
    );
    // 1e12 = 0xe8d4a51000
    assert_eq!(
        &bytes[184..200],
        &[0x00u8, 0x10, 0xa5, 0xd4, 0xe8, 0, 0, 0, 0, 0, 0, 0, 0, 0, 0, 0]
    );
    assert_eq!(&bytes[200..208], &[1u8, 2, 3, 4, 5, 6, 7, 8]);
    assert_eq!(&bytes[208..216], &[2u8, 1, 0, 0, 0, 0, 0, 0]);
}

#[test]
fn vault_record_round_trip() {
    let st = sample_vault();
    assert_eq!(VaultState::from_bytes(&st.to_bytes()), Ok(st));
    let extreme = VaultState {
        total_shares: u128::MAX,
        pps: u128::MAX,
        buffered_base: u64::MAX,
        last_settle_slot: u64::MAX,
        ..st
    };
    assert_eq!(VaultState::from_bytes(&extreme.to_bytes()), Ok(extreme));
}

#[test]
fn vault_record_ignores_what_follows_it() {
    let st = sample_vault();
    let mut bytes = st.to_bytes();
    bytes.extend_from_slice(&[0xee; 40]);
    assert_eq!(VaultState::from_bytes(&bytes), Ok(st));
}

#[test]
fn short_vault_record_is_malformed() {
    let bytes = sample_vault().to_bytes();
    assert_eq!(VaultState::from_bytes(&bytes[..215]), Err(VaultError::MalformedInput));
    assert_eq!(VaultState::from_bytes(&[]), Err(VaultError::MalformedInput));
}

#[test]
fn boost_record_layout() {
    assert_eq!(BOOST_DISTRIBUTOR_LEN, 72);
    let bd = BoostDistributor {
        epoch: 0x0807_0605_0403_0201,
        root: [0xbb; 32],
        total_weight: 301,
        boost_total: 900,
        _pad: [9, 8, 7, 6, 5, 4, 3, 2],
    };
    let bytes = bd.to_bytes();
    assert_eq!(bytes.len(), 72);
    assert_eq!(&bytes[0..8], &[1u8, 2, 3, 4, 5, 6, 7, 8]);
    assert_eq!(&bytes[8..40], &[0xbbu8; 32]);
    assert_eq!(&bytes[40..56], &[0x2du8, 1, 0, 0, 0, 0, 0, 0, 0, 0, 0, 0, 0, 0, 0, 0]);
    assert_eq!(&bytes[56..64], &[0x84u8, 3, 0, 0, 0, 0, 0, 0]);
    assert_eq!(&bytes[64..72], &[9u8, 8, 7, 6, 5, 4, 3, 2]);
    assert_eq!(BoostDistributor::from_bytes(&bytes), Ok(bd));
}

#[test]
fn short_boost_record_is_malformed() {
    assert_eq!(BoostDistributor::from_bytes(&[0u8; 71]), Err(VaultError::MalformedInput));
    assert_eq!(
        BoostDistributor::from_bytes(&[0u8; 72]),
        Ok(BoostDistributor::unbound())
    );
}

#[test]
fn bitmap_layout() {
    assert_eq!(CLAIM_BITMAP_LEN, 32);
    let mut bitmap = ClaimBitmap256::new();
    bitmap.mark_claimed(9);
    bitmap.mark_claimed(255);
    let bytes = bitmap.to_bytes();
    assert_eq!(bytes.len(), 32);
    assert_eq!(bytes[1], 0b0000_0010);
    assert_eq!(bytes[31], 0b1000_0000);
    assert_eq!(ClaimBitmap256::from_bytes(&bytes), Ok(bitmap));
    assert_eq!(ClaimBitmap256::from_bytes(&bytes[..31]), Err(VaultError::MalformedInput));
    let mut longer = bytes.clone();
    longer.push(0xff);
    assert_eq!(ClaimBitmap256::from_bytes(&longer), Ok(bitmap));
}
