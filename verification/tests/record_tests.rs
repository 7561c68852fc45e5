use yield_vault::{Address, VaultError, VaultRecord, YieldVault};

fn addr(name: &str) -> Address {
    Address::new(name.as_bytes().to_vec())
}

fn record(holders: &[&str], balances: &[i128], total_shares: i128, total_assets: i128) -> VaultRecord {
    VaultRecord {
        config: Some((addr("GADMIN"), addr("CTOKEN"))),
        total_shares,
        total_assets,
        holders: holders.iter().map(|h| addr(h)).collect(),
        balances: balances.to_vec(),
    }
}

#[test]
fn record_round_trip_restores_the_vault() {
    let mut vault = YieldVault::new();
    let admin = addr("GADMIN");
    vault.initialize(admin.duplicate(), addr("CTOKEN")).unwrap();
    let a = addr("GALICE");
    let b = addr("GBOB");
    vault.deposit(&a, 1000).unwrap();
    vault.deposit(&b, 250).unwrap();
    vault.rebalance(&admin, 125).unwrap();
    let rec = vault.to_record();
    assert!(rec.is_valid());
    assert_eq!(rec.holders.len(), 2);
    assert_eq!(rec.balances, vec![1000, 250]);
    let mut restored = YieldVault::from_record(rec).unwrap();
    assert_eq!(restored.get_shares(&a), 1000);
    assert_eq!(restored.get_shares(&b), 250);
    assert_eq!(restored.total_shares(), 1250);
    assert_eq!(restored.total_assets(), 1125);
    assert_eq!(restored.get_admin(), Ok(admin.duplicate()));
    assert_eq!(restored.withdraw(&b, 250), Ok(225));
    assert_eq!(restored.rebalance(&b, 1), Err(VaultError::Unauthorized));
}

#[test]
fn fresh_vault_record_round_trip() {
    let rec = YieldVault::new().to_record();
    assert!(rec.config.is_none());
    let vault = YieldVault::from_record(rec).unwrap();
    assert_eq!(vault.require_init(), Err(VaultError::NotInitialized));
}

#[test]
fn consistent_record_is_accepted() {
    assert!(record(&["GA", "GB"], &[3, 4], 7, 9).is_valid());
    assert!(record(&[], &[], 0, -4).is_valid());
    assert!(record(&["GA"], &[0], 0, 0).is_valid());
}

#[test]
fn inconsistent_records_are_refused() {
    // Two entries for one holder.
    assert!(YieldVault::from_record(record(&["GA", "GA"], &[3, 4], 7, 9)).is_none());
    // A negative balance.
    assert!(YieldVault::from_record(record(&["GA", "GB"], &[-1, 8], 7, 9)).is_none());
    // Balances that do not add up to the shares in circulation.
    assert!(YieldVault::from_record(record(&["GA", "GB"], &[3, 3], 7, 9)).is_none());
    // Lists of different lengths.
    assert!(YieldVault::from_record(record(&["GA", "GB"], &[7], 7, 9)).is_none());
    // Assets left with no share out.
    assert!(YieldVault::from_record(record(&[], &[], 0, 5)).is_none());
    // Balances whose sum overflows.
    assert!(YieldVault::from_record(record(&["GA", "GB"], &[i128::MAX, 1], i128::MAX, 9)).is_none());
    // State before initialisation.
    let uninit = VaultRecord {
        config: None,
        total_shares: 1,
        total_assets: 1,
        holders: vec![addr("GA")],
        balances: vec![1],
    };
    assert!(!uninit.is_valid());
    assert!(YieldVault::from_record(uninit).is_none());
}
