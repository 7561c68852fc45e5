use yield_vault::{Address, VaultError, YieldVault};

fn addr(name: &str) -> Address {
    Address::new(name.as_bytes().to_vec())
}

fn setup() -> (YieldVault, Address) {
    let mut vault = YieldVault::new();
    let admin = addr("GADMIN");
    vault.initialize(admin.duplicate(), addr("CTOKEN")).unwrap();
    (vault, admin)
}

#[test]
fn fresh_vault_is_not_initialized() {
    let mut vault = YieldVault::new();
    let user = addr("GUSER");
    assert_eq!(vault.require_init(), Err(VaultError::NotInitialized));
    assert_eq!(vault.get_admin(), Err(VaultError::NotInitialized));
    assert_eq!(vault.get_token(), Err(VaultError::NotInitialized));
    assert_eq!(vault.deposit(&user, 10), Err(VaultError::NotInitialized));
    assert_eq!(vault.withdraw(&user, 10), Err(VaultError::NotInitialized));
    assert_eq!(vault.rebalance(&user, 10), Err(VaultError::NotInitialized));
    assert_eq!(VaultError::NotInitialized.code(), 1);
    assert_eq!(vault.total_shares(), 0);
    assert_eq!(vault.total_assets(), 0);
    assert_eq!(vault.get_shares(&user), 0);
}

#[test]
fn error_codes_are_distinct() {
    assert_eq!(VaultError::NotInitialized.code(), 1);
    assert_eq!(VaultError::AlreadyInitialized.code(), 2);
    assert_eq!(VaultError::ZeroAmount.code(), 3);
    assert_eq!(VaultError::InsufficientShares.code(), 4);
    assert_eq!(VaultError::Unauthorized.code(), 5);
    assert_eq!(VaultError::ZeroSupply.code(), 6);
}

#[test]
fn proportional_deposit_rounds_toward_zero() {
    let (mut vault, admin) = setup();
    let a = addr("GALICE");
    let b = addr("GBOB");
    vault.deposit(&a, 1000).unwrap();
    vault.rebalance(&admin, 400).unwrap();
    // 100 * 1000 / 600 = 166.66..., rounded toward zero.
    assert_eq!(vault.deposit(&b, 100), Ok(166));
    assert_eq!(vault.total_shares(), 1166);
    assert_eq!(vault.total_assets(), 700);
    assert_eq!(vault.get_shares(&a), 1000);
    assert_eq!(vault.get_shares(&b), 166);
}

#[test]
fn deposit_does_not_dilute_existing_holders() {
    let (mut vault, admin) = setup();
    let a = addr("GALICE");
    let b = addr("GBOB");
    vault.deposit(&a, 1000).unwrap();
    vault.rebalance(&admin, 400).unwrap();
    let (s0, a0) = (vault.total_shares(), vault.total_assets());
    vault.deposit(&b, 100).unwrap();
    let (s1, a1) = (vault.total_shares(), vault.total_assets());
    assert!(a0 * s1 <= a1 * s0);
}

#[test]
fn deposit_then_withdraw_returns_no_more() {
    let (mut vault, admin) = setup();
    let a = addr("GALICE");
    let b = addr("GBOB");
    vault.deposit(&a, 1000).unwrap();
    vault.rebalance(&admin, 400).unwrap();
    let minted = vault.deposit(&b, 100).unwrap();
    // 166 * 700 / 1166 = 99.65..., rounded toward zero.
    assert_eq!(vault.withdraw(&b, minted), Ok(99));
    assert_eq!(vault.get_shares(&b), 0);
    assert_eq!(vault.total_shares(), 1000);
    assert_eq!(vault.total_assets(), 601);
}

#[test]
fn last_redemption_takes_all_remaining_assets() {
    let (mut vault, admin) = setup();
    let a = addr("GALICE");
    let b = addr("GBOB");
    vault.deposit(&a, 3).unwrap();
    vault.deposit(&b, 3).unwrap();
    vault.rebalance(&admin, 1).unwrap();
    // 3 * 5 / 6 = 2.5, rounded toward zero: the half stays in the vault...
    assert_eq!(vault.withdraw(&a, 3), Ok(2));
    // ...and goes to the last holder, who redeems every share still out.
    assert_eq!(vault.withdraw(&b, 3), Ok(3));
    assert_eq!(vault.total_shares(), 0);
    assert_eq!(vault.total_assets(), 0);
}

#[test]
fn refused_operations_change_nothing() {
    let (mut vault, admin) = setup();
    let a = addr("GALICE");
    let b = addr("GBOB");
    vault.deposit(&a, 3).unwrap();
    let before = (vault.total_shares(), vault.total_assets(), vault.get_shares(&a));
    assert_eq!(vault.deposit(&b, -5), Err(VaultError::ZeroAmount));
    assert_eq!(vault.deposit(&b, 0), Err(VaultError::ZeroAmount));
    assert_eq!(vault.withdraw(&a, 4), Err(VaultError::InsufficientShares));
    assert_eq!(vault.withdraw(&b, 1), Err(VaultError::InsufficientShares));
    assert_eq!(vault.withdraw(&a, -1), Err(VaultError::ZeroAmount));
    assert_eq!(vault.rebalance(&b, 1), Err(VaultError::Unauthorized));
    assert_eq!(vault.rebalance(&admin, 0), Err(VaultError::ZeroAmount));
    assert_eq!(vault.initialize(b.duplicate(), b.duplicate()), Err(VaultError::AlreadyInitialized));
    assert_eq!(before, (vault.total_shares(), vault.total_assets(), vault.get_shares(&a)));
    assert_eq!(vault.get_shares(&b), 0);
    assert_eq!(vault.get_admin(), Ok(admin));
}

#[test]
fn rebalance_before_any_deposit_leaves_negative_assets() {
    let (mut vault, admin) = setup();
    let a = addr("GALICE");
    assert_eq!(vault.rebalance(&admin, 5), Ok(()));
    assert_eq!(vault.total_assets(), -5);
    assert_eq!(vault.total_shares(), 0);
    // The first deposit still mints one for one.
    assert_eq!(vault.deposit(&a, 10), Ok(10));
    assert_eq!(vault.total_assets(), 5);
    assert_eq!(vault.withdraw(&a, 10), Ok(5));
    assert_eq!(vault.total_assets(), 0);
}

#[test]
fn deposit_into_vault_with_negative_assets_is_refused() {
    let (mut vault, admin) = setup();
    let a = addr("GALICE");
    let b = addr("GBOB");
    vault.deposit(&a, 100).unwrap();
    vault.rebalance(&admin, 150).unwrap();
    assert_eq!(vault.total_assets(), -50);
    // 10 * 100 / -50 = -20 shares: refused.
    assert_eq!(vault.deposit(&b, 10), Err(VaultError::ZeroAmount));
    // Redeeming against negative assets pays a negative amount and brings the
    // vault's assets back toward zero.
    assert_eq!(vault.withdraw(&a, 100), Ok(-50));
    assert_eq!(vault.total_assets(), 0);
    assert_eq!(vault.total_shares(), 0);
}

#[test]
fn rebalance_moves_assets_only() {
    let (mut vault, admin) = setup();
    let a = addr("GALICE");
    vault.deposit(&a, 500).unwrap();
    assert_eq!(vault.rebalance(&admin, 0), Err(VaultError::ZeroAmount));
    assert_eq!(vault.rebalance(&admin, -1), Err(VaultError::ZeroAmount));
    assert_eq!(vault.rebalance(&admin, 200), Ok(()));
    assert_eq!(vault.total_shares(), 500);
    assert_eq!(vault.get_shares(&a), 500);
    assert_eq!(vault.total_assets(), 300);
}

#[test]
fn only_admin_rebalances_even_with_same_prefix() {
    let (mut vault, _) = setup();
    assert_eq!(vault.rebalance(&addr("GADMI"), 1), Err(VaultError::Unauthorized));
    assert_eq!(vault.rebalance(&addr("GADMIN2"), 1), Err(VaultError::Unauthorized));
    assert_eq!(vault.rebalance(&addr("GADMIN"), 1), Ok(()));
    assert_eq!(vault.total_assets(), -1);
}

#[test]
fn shares_sum_to_total() {
    let (mut vault, admin) = setup();
    let holders = [addr("GA"), addr("GB"), addr("GC")];
    vault.deposit(&holders[0], 700).unwrap();
    vault.deposit(&holders[1], 300).unwrap();
    vault.rebalance(&admin, 250).unwrap();
    vault.deposit(&holders[2], 90).unwrap();
    vault.withdraw(&holders[0], 123).unwrap();
    vault.deposit(&holders[1], 17).unwrap();
    let sum: i128 = holders.iter().map(|h| vault.get_shares(h)).sum();
    assert_eq!(sum, vault.total_shares());
}

#[test]
fn withdraw_keeps_entry_at_zero_and_redeposit_works() {
    let (mut vault, _) = setup();
    let a = addr("GALICE");
    vault.deposit(&a, 40).unwrap();
    assert_eq!(vault.withdraw(&a, 40), Ok(40));
    assert_eq!(vault.get_shares(&a), 0);
    assert_eq!(vault.withdraw(&a, 1), Err(VaultError::InsufficientShares));
    assert_eq!(vault.deposit(&a, 7), Ok(7));
    assert_eq!(vault.get_shares(&a), 7);
}

#[test]
fn arithmetic_limits_are_reported() {
    let (mut vault, admin) = setup();
    let a = addr("GALICE");
    let b = addr("GBOB");
    assert!(vault.deposit_fits(i128::MAX));
    vault.deposit(&a, i128::MAX).unwrap();
    assert!(!vault.deposit_fits(2));
    assert!(vault.deposit_fits(0));
    assert!(vault.withdraw_fits(&a, 1));
    assert!(vault.withdraw_fits(&b, 1));
    let (mut v2, _) = setup();
    v2.deposit(&a, 1).unwrap();
    assert!(v2.rebalance_fits(&admin, i128::MAX));
    v2.rebalance(&admin, i128::MAX).unwrap();
    assert_eq!(v2.total_assets(), 1 - i128::MAX);
    assert!(!v2.rebalance_fits(&admin, 3));
    assert!(v2.rebalance_fits(&b, 3));
    assert!(v2.rebalance_fits(&admin, 1));
    let (mut v3, admin3) = setup();
    v3.deposit(&a, 10).unwrap();
    v3.rebalance(&admin3, 10).unwrap();
    // Shares out against no assets: a deposit would divide by zero.
    assert_eq!(v3.total_assets(), 0);
    assert!(!v3.deposit_fits(5));
    let (mut v4, _) = setup();
    v4.deposit(&a, 1 << 100).unwrap();
    assert!(!v4.withdraw_fits(&a, 1 << 100));
    assert!(v4.withdraw_fits(&a, 1 << 20));
    let _ = vault.total_shares();
}

#[test]
fn addresses_compare_by_bytes() {
    let a = addr("GALICE");
    assert!(a.same_as(&addr("GALICE")));
    assert!(!a.same_as(&addr("GALICF")));
    assert!(!a.same_as(&addr("GALIC")));
    assert_eq!(a.duplicate(), a);
    assert_eq!(a.as_bytes(), &b"GALICE".to_vec());
}

#[test]
fn withdraw_rounds_down_and_does_not_dilute() {
    let (mut vault, admin) = setup();
    let a = addr("GALICE");
    let b = addr("GBOB");
    vault.deposit(&a, 6).unwrap();
    vault.deposit(&b, 3).unwrap();
    vault.rebalance(&admin, 2).unwrap();
    let (s0, a0) = (vault.total_shares(), vault.total_assets());
    // 4 * 7 / 9 = 3.11..., rounded down.
    let paid = vault.withdraw(&a, 4).unwrap();
    assert_eq!(paid, 3);
    assert!(paid * s0 <= 4 * a0 && 4 * a0 < (paid + 1) * s0);
    let (s1, a1) = (vault.total_shares(), vault.total_assets());
    assert_eq!((s1, a1), (5, 4));
    assert!(a0 * s1 <= a1 * s0);
}

#[test]
fn round_trip_at_one_to_one_price_returns_the_deposit() {
    let (mut vault, _) = setup();
    let a = addr("GALICE");
    let b = addr("GBOB");
    vault.deposit(&a, 500).unwrap();
    let minted = vault.deposit(&b, 77).unwrap();
    assert_eq!(minted, 77);
    assert_eq!(vault.withdraw(&b, minted), Ok(77));
}

#[test]
fn configuration_is_written_once() {
    let (mut vault, admin) = setup();
    let a = addr("GALICE");
    let other = addr("GOTHER");
    vault.deposit(&a, 100).unwrap();
    vault.rebalance(&admin, 10).unwrap();
    vault.initialize(other.duplicate(), other.duplicate()).unwrap_err();
    vault.withdraw(&a, 50).unwrap();
    vault.rebalance(&other, 1).unwrap_err();
    assert_eq!(vault.get_admin(), Ok(admin));
    assert_eq!(vault.get_token(), Ok(addr("CTOKEN")));
}

#[test]
fn tracked_assets_follow_token_movements() {
    let (mut vault, admin) = setup();
    let a = addr("GALICE");
    let mut vault_tokens: i128 = 0;
    vault.deposit(&a, 1000).unwrap();
    vault_tokens += 1000;
    vault.rebalance(&admin, 300).unwrap();
    vault_tokens -= 300;
    vault_tokens -= vault.withdraw(&a, 400).unwrap();
    assert_eq!(vault.total_assets(), vault_tokens);
    assert_eq!(vault_tokens, 420);
}
