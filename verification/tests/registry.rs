use mainstay::address::Address;
use mainstay::registry::{AssetRegistry, ContractError, Failure, LENDING_TIMELOCK_SECS};
use mainstay::symbol::Symbol;
use soroban_sdk::Env;

fn sym(text: &str) -> Symbol {
    Symbol::new(text).unwrap()
}

fn addr(n: u8) -> Address {
    Address::contract([n; 32])
}

fn text(s: &str) -> String {
    s.to_string()
}

#[test]
fn test_register_and_get_asset() {
    let env = Env::default();
    let mut registry = AssetRegistry::new();
    let owner = addr(1);
    let id = registry
        .register_asset(&env, sym("GENSET"), text("Caterpillar 3516 Generator"), owner, 0)
        .unwrap();
    assert_eq!(id, 1);

    let asset = registry.get_asset(id).unwrap();
    assert_eq!(asset.asset_id, 1);
    assert_eq!(asset.owner, owner);
}

#[test]
fn test_get_asset_not_found() {
    let registry = AssetRegistry::new();
    let result = registry.get_asset(999);
    assert_eq!(result, Err(ContractError::AssetNotFound));
}

#[test]
fn test_duplicate_metadata_rejected() {
    let env = Env::default();
    let mut registry = AssetRegistry::new();
    let owner = addr(1);
    let metadata = text("CAT-3516-SN123456");

    let id = registry.register_asset(&env, sym("GENSET"), metadata.clone(), owner, 0).unwrap();
    assert_eq!(id, 1);

    let result = registry.register_asset(&env, sym("GENSET"), metadata, owner, 0);
    assert_eq!(result, Err(Failure::Contract(ContractError::DuplicateAsset)));
}

#[test]
fn test_different_owners_same_metadata_allowed() {
    let env = Env::default();
    let mut registry = AssetRegistry::new();
    let owner_a = addr(1);
    let owner_b = addr(2);
    let metadata = text("CAT-3516-SN123456");

    let id_a = registry.register_asset(&env, sym("GENSET"), metadata.clone(), owner_a, 0).unwrap();
    let id_b = registry.register_asset(&env, sym("GENSET"), metadata, owner_b, 0).unwrap();
    assert_ne!(id_a, id_b);
}

#[test]
fn test_admin_can_upgrade() {
    let mut registry = AssetRegistry::new();
    let admin = addr(9);
    registry.initialize_admin(admin).unwrap();
    assert_eq!(registry.upgrade(admin), Ok(()));
}

#[test]
fn test_non_admin_cannot_upgrade() {
    let mut registry = AssetRegistry::new();
    let admin = addr(9);
    registry.initialize_admin(admin).unwrap();
    let outsider = addr(10);
    assert_eq!(
        registry.upgrade(outsider),
        Err(Failure::Contract(ContractError::UnauthorizedAdmin))
    );
}

#[test]
fn test_owner_can_update_metadata() {
    let env = Env::default();
    let mut registry = AssetRegistry::new();
    let owner = addr(1);
    let id = registry.register_asset(&env, sym("GENSET"), text("Original spec"), owner, 0).unwrap();

    registry.update_asset_metadata(&env, id, owner, text("Refurbished spec v2")).unwrap();

    let asset = registry.get_asset(id).unwrap();
    assert_eq!(asset.metadata, text("Refurbished spec v2"));
}

#[test]
fn test_non_owner_cannot_update_metadata() {
    let env = Env::default();
    let mut registry = AssetRegistry::new();
    let owner = addr(1);
    let id = registry.register_asset(&env, sym("GENSET"), text("Original spec"), owner, 0).unwrap();

    let attacker = addr(66);
    let result = registry.update_asset_metadata(&env, id, attacker, text("Hacked spec"));
    assert_eq!(result, Err(Failure::Contract(ContractError::UnauthorizedOwner)));
}

#[test]
fn test_update_metadata_nonexistent_asset() {
    let env = Env::default();
    let mut registry = AssetRegistry::new();
    let owner = addr(1);
    let result = registry.update_asset_metadata(&env, 999, owner, text("New spec"));
    assert_eq!(result, Err(Failure::Contract(ContractError::AssetNotFound)));
}

#[test]
fn test_transfer_asset() {
    let env = Env::default();
    let mut registry = AssetRegistry::new();
    let owner = addr(1);
    let new_owner = addr(2);
    let id = registry.register_asset(&env, sym("GENSET"), text("CAT-3516"), owner, 0).unwrap();

    registry.transfer_asset(&env, id, owner, new_owner).unwrap();

    let asset = registry.get_asset(id).unwrap();
    assert_eq!(asset.owner, new_owner);
}

#[test]
fn test_transfer_asset_non_owner_rejected() {
    let env = Env::default();
    let mut registry = AssetRegistry::new();
    let owner = addr(1);
    let attacker = addr(66);
    let new_owner = addr(2);
    let id = registry.register_asset(&env, sym("GENSET"), text("CAT-3516"), owner, 0).unwrap();

    let result = registry.transfer_asset(&env, id, attacker, new_owner);
    assert_eq!(result, Err(Failure::Contract(ContractError::UnauthorizedOwner)));
}

#[test]
fn test_transfer_updates_dedup_so_new_owner_can_register_same_metadata() {
    let env = Env::default();
    let mut registry = AssetRegistry::new();
    let owner = addr(1);
    let new_owner = addr(2);
    let metadata = text("CAT-3516");

    let id = registry.register_asset(&env, sym("GENSET"), metadata.clone(), owner, 0).unwrap();
    registry.transfer_asset(&env, id, owner, new_owner).unwrap();

    // The first owner can register the same metadata again: the key moved.
    let id2 = registry.register_asset(&env, sym("GENSET"), metadata, owner, 0).unwrap();
    assert_ne!(id, id2);
}

#[test]
fn test_update_metadata_dedup_enforced() {
    let env = Env::default();
    let mut registry = AssetRegistry::new();
    let owner = addr(1);
    let id1 = registry.register_asset(&env, sym("GENSET"), text("Spec A"), owner, 0).unwrap();
    registry.register_asset(&env, sym("GENSET"), text("Spec B"), owner, 0).unwrap();

    let result = registry.update_asset_metadata(&env, id1, owner, text("Spec B"));
    assert_eq!(result, Err(Failure::Contract(ContractError::DuplicateAsset)));
}

#[test]
fn test_set_lending_contract_requires_timelock() {
    let mut registry = AssetRegistry::new();
    let admin = addr(9);
    registry.initialize_admin(admin).unwrap();
    let lender = addr(7);

    registry.propose_lending_contract(admin, lender, 0).unwrap();

    let result = registry.set_lending_contract(admin, 0);
    assert_eq!(result, Err(Failure::Contract(ContractError::LendingTimelockNotElapsed)));
}

#[test]
fn test_set_lending_contract_succeeds_after_timelock_and_emits_adm_aud() {
    let mut registry = AssetRegistry::new();
    let admin = addr(9);
    registry.initialize_admin(admin).unwrap();
    let lender = addr(7);

    registry.propose_lending_contract(admin, lender, 0).unwrap();
    registry.set_lending_contract(admin, LENDING_TIMELOCK_SECS + 1).unwrap();

    assert_eq!(registry.get_lending_contract(), Ok(lender));
}

#[test]
fn test_set_lending_contract_non_admin_cannot_propose() {
    let mut registry = AssetRegistry::new();
    let admin = addr(9);
    registry.initialize_admin(admin).unwrap();
    let outsider = addr(10);
    let lender = addr(7);

    let result = registry.propose_lending_contract(outsider, lender, 0);
    assert_eq!(result, Err(Failure::Contract(ContractError::UnauthorizedAdmin)));
}

#[test]
fn test_lock_asset_as_collateral_rejects_unauthorized_caller() {
    let env = Env::default();
    let mut registry = AssetRegistry::new();
    let admin = addr(9);
    registry.initialize_admin(admin).unwrap();
    let owner = addr(1);
    let id = registry.register_asset(&env, sym("GENSET"), text("CAT-3516"), owner, 0).unwrap();

    let attacker = addr(66);
    let result = registry.lock_asset_as_collateral(id, attacker);
    assert_eq!(result, Err(Failure::Contract(ContractError::UnauthorizedLender)));
    assert!(!registry.get_asset(id).unwrap().locked);
}

#[test]
fn test_lock_asset_as_collateral_succeeds_for_configured_lender() {
    let env = Env::default();
    let mut registry = AssetRegistry::new();
    let admin = addr(9);
    registry.initialize_admin(admin).unwrap();
    let lender = addr(7);
    registry.propose_lending_contract(admin, lender, 0).unwrap();
    registry.set_lending_contract(admin, LENDING_TIMELOCK_SECS + 1).unwrap();

    let owner = addr(1);
    let id = registry.register_asset(&env, sym("GENSET"), text("CAT-3516"), owner, 0).unwrap();

    registry.lock_asset_as_collateral(id, lender).unwrap();
    assert!(registry.get_asset(id).unwrap().locked);
}
