use interest_vault::donation::{donate, split_donation, DonationSplit};
use interest_vault::{BoostDistributor, VaultError, VaultState, RAY};

fn fresh() -> VaultState {
    VaultState::initialize([1u8; 32], [2u8; 32], [3u8; 32], [4u8; 32], [5u8; 32], 254)
}

fn bound(epoch: u64, boost_total: u64) -> BoostDistributor {
    BoostDistributor { epoch, root: [9; 32], total_weight: 77, boost_total, _pad: [0; 8] }
}

#[test]
fn zero_bps_is_all_base() {
    assert_eq!(split_donation(1000, 0), Ok(DonationSplit { base: 1000, boost: 0 }));
    assert_eq!(split_donation(u64::MAX, 0), Ok(DonationSplit { base: u64::MAX, boost: 0 }));
    assert_eq!(split_donation(0, 0), Ok(DonationSplit { base: 0, boost: 0 }));
}

#[test]
fn ten_thousand_bps_is_all_boost() {
    assert_eq!(split_donation(1000, 10_000), Ok(DonationSplit { base: 0, boost: 1000 }));
    assert_eq!(
        split_donation(u64::MAX, 10_000),
        Ok(DonationSplit { base: 0, boost: u64::MAX })
    );
    assert_eq!(split_donation(1, 10_000), Ok(DonationSplit { base: 0, boost: 1 }));
}

#[test]
fn boost_part_is_rounded_down() {
    assert_eq!(split_donation(1000, 2500), Ok(DonationSplit { base: 750, boost: 250 }));
    // 999 * 3333 / 10000 = 332.9667
    assert_eq!(split_donation(999, 3333), Ok(DonationSplit { base: 667, boost: 332 }));
    assert_eq!(split_donation(1, 9999), Ok(DonationSplit { base: 1, boost: 0 }));
    // the product does not fit in 64 bits
    assert_eq!(
        split_donation(u64::MAX, 5000),
        Ok(DonationSplit { base: 9_223_372_036_854_775_808, boost: 9_223_372_036_854_775_807 })
    );
}

#[test]
fn more_boost_than_donated_is_refused() {
    assert_eq!(split_donation(2, 15_000), Err(VaultError::ArithmeticUnderflow));
    assert_eq!(split_donation(u64::MAX, u16::MAX), Err(VaultError::ArithmeticUnderflow));
    // 1 * 15000 / 10000 rounds down to the whole donation
    assert_eq!(split_donation(1, 15_000), Ok(DonationSplit { base: 0, boost: 1 }));
    assert_eq!(split_donation(0, u16::MAX), Ok(DonationSplit { base: 0, boost: 0 }));
}

#[test]
fn donation_raises_price_and_collects_boost() {
    let mut vault = fresh();
    vault.total_shares = 1000;
    let mut record = Some(bound(4, 50));
    assert_eq!(
        donate(&mut vault, &mut record, 2000, 4, 2500),
        Ok(DonationSplit { base: 1500, boost: 500 })
    );
    // 1500 over 1000 shares
    assert_eq!(vault.pps, RAY + 1_500_000_000_000);
    assert_eq!(vault.total_shares, 1000);
    assert_eq!(record, Some(bound(4, 550)));
}

#[test]
fn donation_without_shares_is_buffered() {
    let mut vault = fresh();
    let mut record = None;
    assert_eq!(
        donate(&mut vault, &mut record, 2000, 4, 2500),
        Ok(DonationSplit { base: 1500, boost: 500 })
    );
    assert_eq!(vault.pps, RAY);
    assert_eq!(vault.buffered_base, 1500);
    assert_eq!(record, None);
}

#[test]
fn all_boost_donation_leaves_the_vault_alone() {
    let mut vault = fresh();
    vault.total_shares = 1000;
    let before = vault;
    let mut record = Some(bound(4, 0));
    assert_eq!(
        donate(&mut vault, &mut record, 777, 4, 10_000),
        Ok(DonationSplit { base: 0, boost: 777 })
    );
    assert_eq!(vault, before);
    assert_eq!(record, Some(bound(4, 777)));
}

#[test]
fn all_base_donation_collects_no_boost() {
    let mut vault = fresh();
    vault.total_shares = 7;
    let mut record = Some(bound(4, 12));
    assert_eq!(
        donate(&mut vault, &mut record, 777, 4, 0),
        Ok(DonationSplit { base: 777, boost: 0 })
    );
    assert_eq!(vault.pps, RAY + 111_000_000_000_000);
    assert_eq!(record, Some(bound(4, 12)));
}

#[test]
fn unbound_record_is_bound_by_the_first_donation() {
    let mut vault = fresh();
    let mut record = Some(BoostDistributor::unbound());
    assert_eq!(
        donate(&mut vault, &mut record, 100, 6, 5000),
        Ok(DonationSplit { base: 50, boost: 50 })
    );
    let bd = record.unwrap();
    assert_eq!(bd.epoch, 6);
    assert_eq!(bd.boost_total, 50);
    assert_eq!(bd.total_weight, 0);
    assert_eq!(bd.root, [0u8; 32]);
}

#[test]
fn donation_for_another_epoch_changes_nothing() {
    let mut vault = fresh();
    vault.total_shares = 10;
    let vault_before = vault;
    let mut record = Some(bound(4, 50));
    assert_eq!(
        donate(&mut vault, &mut record, 1000, 5, 2500),
        Err(VaultError::EpochMismatch)
    );
    assert_eq!(vault, vault_before);
    assert_eq!(record, Some(bound(4, 50)));
    // epoch 0 names no epoch that a bound record could be bound to
    assert_eq!(
        donate(&mut vault, &mut record, 1000, 0, 2500),
        Err(VaultError::EpochMismatch)
    );
    assert_eq!(vault, vault_before);
}

#[test]
fn donation_overflowing_the_price_changes_nothing() {
    let mut vault = fresh();
    vault.total_shares = 1;
    vault.pps = u128::MAX;
    let vault_before = vault;
    let mut record = Some(bound(4, 50));
    assert_eq!(
        donate(&mut vault, &mut record, 1000, 4, 2500),
        Err(VaultError::ArithmeticOverflow)
    );
    assert_eq!(vault, vault_before);
    assert_eq!(record, Some(bound(4, 50)));
}

#[test]
fn donation_with_too_many_bps_changes_nothing() {
    let mut vault = fresh();
    let vault_before = vault;
    let mut record = Some(bound(4, 50));
    assert_eq!(
        donate(&mut vault, &mut record, 10_000, 4, 10_001),
        Err(VaultError::ArithmeticUnderflow)
    );
    assert_eq!(vault, vault_before);
    assert_eq!(record, Some(bound(4, 50)));
}

#[test]
fn boost_total_saturates() {
    let mut bd = bound(4, u64::MAX - 5);
    assert_eq!(bd.credit_boost(4, 10), Ok(()));
    assert_eq!(bd.boost_total, u64::MAX);
    assert_eq!(bd.credit_boost(4, 1), Ok(()));
    assert_eq!(bd.boost_total, u64::MAX);
}

#[test]
fn credit_for_another_epoch_is_refused() {
    let mut bd = bound(4, 5);
    assert_eq!(bd.credit_boost(3, 10), Err(VaultError::EpochMismatch));
    assert_eq!(bd, bound(4, 5));
    assert_eq!(bd.credit_boost(4, 10), Ok(()));
    assert_eq!(bd, bound(4, 15));
}

#[test]
fn post_root_overwrites_the_triple_and_keeps_the_pool() {
    let mut bd = bound(4, 555);
    bd.post_root(5, 1234, [7; 32]);
    assert_eq!(bd.epoch, 5);
    assert_eq!(bd.total_weight, 1234);
    assert_eq!(bd.root, [7u8; 32]);
    assert_eq!(bd.boost_total, 555);
    assert_eq!(bd._pad, [0u8; 8]);
    // nothing is validated: an empty epoch can be posted
    bd.post_root(0, 0, [0; 32]);
    assert_eq!(bd.epoch, 0);
    assert_eq!(bd.total_weight, 0);
    assert_eq!(bd.boost_total, 555);
}

#[test]
fn unbound_record_is_all_zero() {
    let bd = BoostDistributor::unbound();
    assert_eq!(bd.epoch, 0);
    assert_eq!(bd.root, [0u8; 32]);
    assert_eq!(bd.total_weight, 0);
    assert_eq!(bd.boost_total, 0);
    assert_eq!(bd._pad, [0u8; 8]);
}
