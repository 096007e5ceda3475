use mainstay::address::Address;
use mainstay::digest::hash_metadata;
use mainstay::registry::{AssetRegistry, ContractError, Error, Failure, LENDING_TIMELOCK_SECS};
use mainstay::sdk::MainstayClient;
use mainstay::search::SearchFilter;
use mainstay::shared::{require_admin, SharedContractError};
use mainstay::symbol::Symbol;
use soroban_sdk::Env;

fn sym(text: &str) -> Symbol {
    Symbol::new(text).unwrap()
}

fn addr(n: u8) -> Address {
    Address::contract([n; 32])
}

fn text(s: &str) -> String {
    s.to_string()
}

#[test]
fn registered_asset_reads_back_exactly() {
    let env = Env::default();
    let mut registry = AssetRegistry::new();
    let owner = Address::account([3; 32]);
    let id = registry.register_asset(&env, sym("TURBINE"), text("GE 7HA"), owner, 1234).unwrap();
    let asset = registry.get_asset(id).unwrap();
    assert_eq!(asset.asset_id, id);
    assert_eq!(asset.asset_type, sym("TURBINE"));
    assert_eq!(asset.metadata, text("GE 7HA"));
    assert_eq!(asset.owner, owner);
    assert_eq!(asset.registered_at, 1234);
    assert!(!asset.locked);
    assert_eq!(registry.asset_count(), 1);
}

#[test]
fn ids_come_from_the_counter_and_are_never_reused() {
    let env = Env::default();
    let mut registry = AssetRegistry::new();
    registry.initialize_admin(addr(9)).unwrap();
    let owner = addr(1);
    assert_eq!(registry.register_asset(&env, sym("PUMP"), text("a"), owner, 0), Ok(1));
    assert_eq!(registry.register_asset(&env, sym("PUMP"), text("b"), owner, 0), Ok(2));
    assert_eq!(registry.register_asset(&env, sym("PUMP"), text("c"), owner, 0), Ok(3));
    registry.deregister_asset(&env, 2).unwrap();
    assert_eq!(registry.get_asset(2), Err(ContractError::AssetNotFound));
    assert_eq!(registry.register_asset(&env, sym("PUMP"), text("d"), owner, 0), Ok(4));
    assert_eq!(registry.asset_count(), 4);
}

#[test]
fn same_owner_same_metadata_refused_even_with_another_type() {
    let env = Env::default();
    let mut registry = AssetRegistry::new();
    let owner = addr(1);
    registry.register_asset(&env, sym("PUMP"), text("Grundfos CR 95"), owner, 0).unwrap();
    let again = registry.register_asset(&env, sym("MOTOR"), text("Grundfos CR 95"), owner, 50);
    assert_eq!(again, Err(Failure::Contract(ContractError::DuplicateAsset)));
    assert_eq!(registry.asset_count(), 1);
}

#[test]
fn deregistration_frees_the_metadata_for_its_owner() {
    let env = Env::default();
    let mut registry = AssetRegistry::new();
    registry.initialize_admin(addr(9)).unwrap();
    let owner = addr(1);
    let id = registry.register_asset(&env, sym("PUMP"), text("unit"), owner, 0).unwrap();
    registry.deregister_asset(&env, id).unwrap();
    assert_eq!(registry.register_asset(&env, sym("PUMP"), text("unit"), owner, 0), Ok(2));
}

#[test]
fn deregistration_failures() {
    let env = Env::default();
    let mut registry = AssetRegistry::new();
    assert_eq!(registry.deregister_asset(&env, 1), Err(Failure::AdminNotInitialized));
    registry.initialize_admin(addr(9)).unwrap();
    assert_eq!(registry.deregister_asset(&env, 1), Err(Failure::AssetRecordMissing));
}

#[test]
fn admin_is_set_once() {
    let mut registry = AssetRegistry::new();
    assert_eq!(registry.get_admin(), Err(Failure::AdminNotInitialized));
    registry.initialize_admin(addr(9)).unwrap();
    assert_eq!(registry.initialize_admin(addr(10)), Err(Failure::AdminAlreadyInitialized));
    assert_eq!(registry.get_admin(), Ok(addr(9)));
}

#[test]
fn admin_only_calls_need_an_admin() {
    let registry = AssetRegistry::new();
    assert_eq!(registry.upgrade(addr(9)), Err(Failure::AdminNotInitialized));
}

#[test]
fn updating_to_the_same_metadata_is_allowed() {
    let env = Env::default();
    let mut registry = AssetRegistry::new();
    let owner = addr(1);
    let id = registry.register_asset(&env, sym("PUMP"), text("same"), owner, 0).unwrap();
    registry.update_asset_metadata(&env, id, owner, text("same")).unwrap();
    // The key still guards the metadata.
    let again = registry.register_asset(&env, sym("PUMP"), text("same"), owner, 0);
    assert_eq!(again, Err(Failure::Contract(ContractError::DuplicateAsset)));
}

#[test]
fn metadata_update_moves_the_key() {
    let env = Env::default();
    let mut registry = AssetRegistry::new();
    let owner = addr(1);
    let id = registry.register_asset(&env, sym("PUMP"), text("old"), owner, 0).unwrap();
    registry.update_asset_metadata(&env, id, owner, text("new")).unwrap();
    assert_eq!(registry.register_asset(&env, sym("PUMP"), text("old"), owner, 0), Ok(2));
    assert_eq!(
        registry.register_asset(&env, sym("PUMP"), text("new"), owner, 0),
        Err(Failure::Contract(ContractError::DuplicateAsset))
    );
}

#[test]
fn refused_update_changes_nothing() {
    let env = Env::default();
    let mut registry = AssetRegistry::new();
    let owner = addr(1);
    let id1 = registry.register_asset(&env, sym("PUMP"), text("A"), owner, 0).unwrap();
    registry.register_asset(&env, sym("PUMP"), text("B"), owner, 0).unwrap();
    assert!(registry.update_asset_metadata(&env, id1, owner, text("B")).is_err());
    assert_eq!(registry.get_asset(id1).unwrap().metadata, text("A"));
    // "A" is still taken by asset 1.
    assert_eq!(
        registry.register_asset(&env, sym("PUMP"), text("A"), owner, 0),
        Err(Failure::Contract(ContractError::DuplicateAsset))
    );
}

#[test]
fn transfer_of_missing_asset_is_refused() {
    let env = Env::default();
    let mut registry = AssetRegistry::new();
    assert_eq!(
        registry.transfer_asset(&env, 5, addr(1), addr(2)),
        Err(Failure::Contract(ContractError::AssetNotFound))
    );
}

#[test]
fn new_owner_inherits_the_duplicate_key() {
    let env = Env::default();
    let mut registry = AssetRegistry::new();
    let (a, b) = (addr(1), addr(2));
    let id = registry.register_asset(&env, sym("PUMP"), text("x"), a, 0).unwrap();
    registry.transfer_asset(&env, id, a, b).unwrap();
    assert_eq!(
        registry.register_asset(&env, sym("PUMP"), text("x"), b, 0),
        Err(Failure::Contract(ContractError::DuplicateAsset))
    );
}

fn registry_with_lender(lender: Address) -> AssetRegistry {
    let mut registry = AssetRegistry::new();
    let admin = addr(9);
    registry.initialize_admin(admin).unwrap();
    registry.propose_lending_contract(admin, lender, 100).unwrap();
    registry.set_lending_contract(admin, 100 + LENDING_TIMELOCK_SECS).unwrap();
    registry
}

#[test]
fn unlock_undoes_lock() {
    let env = Env::default();
    let lender = addr(7);
    let mut registry = registry_with_lender(lender);
    let id = registry.register_asset(&env, sym("PUMP"), text("x"), addr(1), 0).unwrap();
    let before = registry.get_asset(id).unwrap();
    registry.lock_asset_as_collateral(id, lender).unwrap();
    assert!(registry.get_asset(id).unwrap().locked);
    registry.unlock_asset(id, lender).unwrap();
    assert_eq!(registry.get_asset(id).unwrap(), before);
}

#[test]
fn test_transfer_blocked_when_asset_locked_as_collateral() {
    let env = Env::default();
    let lender = addr(7);
    let mut registry = registry_with_lender(lender);
    let owner = addr(1);
    let id = registry.register_asset(&env, sym("PUMP"), text("x"), owner, 0).unwrap();
    registry.lock_asset_as_collateral(id, lender).unwrap();
    assert_eq!(registry.transfer_asset(&env, id, owner, addr(2)), Err(Failure::AssetLocked));
    assert_eq!(registry.get_asset(id).unwrap().owner, owner);
    registry.unlock_asset(id, lender).unwrap();
    registry.transfer_asset(&env, id, owner, addr(2)).unwrap();
    assert_eq!(registry.get_asset(id).unwrap().owner, addr(2));
}

#[test]
fn transfer_to_the_current_owner_is_refused() {
    let env = Env::default();
    let mut registry = AssetRegistry::new();
    let owner = addr(1);
    let id = registry.register_asset(&env, sym("PUMP"), text("x"), owner, 0).unwrap();
    let before = registry.get_asset(id).unwrap();
    assert_eq!(registry.transfer_asset(&env, id, owner, owner), Err(Failure::SameOwner));
    assert_eq!(registry.get_asset(id).unwrap(), before);
    // The owner still holds the duplicate-detection key.
    assert_eq!(
        registry.register_asset(&env, sym("PUMP"), text("x"), owner, 0),
        Err(Failure::Contract(ContractError::DuplicateAsset))
    );
}

#[test]
fn collateral_lock_failures() {
    let env = Env::default();
    let lender = addr(7);
    let mut registry = registry_with_lender(lender);
    assert_eq!(
        registry.lock_asset_as_collateral(1, lender),
        Err(Failure::Contract(ContractError::AssetNotFound))
    );
    let id = registry.register_asset(&env, sym("PUMP"), text("x"), addr(1), 0).unwrap();
    assert_eq!(
        registry.unlock_asset(id, addr(8)),
        Err(Failure::Contract(ContractError::UnauthorizedLender))
    );
}

#[test]
fn lending_timelock_boundary() {
    let mut registry = AssetRegistry::new();
    let admin = addr(9);
    registry.initialize_admin(admin).unwrap();
    assert_eq!(registry.get_lending_contract(), Err(Failure::LendingContractNotSet));
    assert_eq!(
        registry.set_lending_contract(admin, 0),
        Err(Failure::Contract(ContractError::NoLendingProposal))
    );
    registry.propose_lending_contract(admin, addr(7), 1000).unwrap();
    assert_eq!(
        registry.set_lending_contract(admin, 1000 + LENDING_TIMELOCK_SECS - 1),
        Err(Failure::Contract(ContractError::LendingTimelockNotElapsed))
    );
    assert_eq!(registry.set_lending_contract(admin, 1000 + LENDING_TIMELOCK_SECS), Ok(()));
    assert_eq!(registry.get_lending_contract(), Ok(addr(7)));
    // The proposal is consumed.
    assert_eq!(
        registry.set_lending_contract(admin, u64::MAX - 1),
        Err(Failure::Contract(ContractError::NoLendingProposal))
    );
}

#[test]
fn lending_deadline_overflow_is_refused() {
    let mut registry = AssetRegistry::new();
    let admin = addr(9);
    registry.initialize_admin(admin).unwrap();
    registry.propose_lending_contract(admin, addr(7), u64::MAX - 5).unwrap();
    assert_eq!(registry.set_lending_contract(admin, u64::MAX), Err(Failure::Overflow));
}

#[test]
fn registry_error_codes() {
    let codes: Vec<u32> = [
        ContractError::AssetNotFound,
        ContractError::DuplicateAsset,
        ContractError::UnauthorizedAdmin,
        ContractError::UnauthorizedOwner,
        ContractError::UnauthorizedLender,
        ContractError::LendingTimelockNotElapsed,
        ContractError::NoLendingProposal,
    ]
    .iter()
    .map(|e| e.code())
    .collect();
    assert_eq!(codes, vec![1, 2, 3, 4, 5, 6, 7]);
    assert_eq!(Error::MetadataTooLong.code(), 1);
}

#[test]
fn search_selects_by_type_with_facets() {
    let env = Env::default();
    let mut registry = AssetRegistry::new();
    let owner = addr(1);
    for (i, t) in ["GENSET", "PUMP", "GENSET", "MOTOR", "GENSET"].iter().enumerate() {
        registry.register_asset(&env, sym(t), format!("unit {}", i), owner, 0).unwrap();
    }
    let all = registry.search_assets(&SearchFilter { asset_type: None });
    assert_eq!(all.total, 5);
    let facets: Vec<(String, u64)> =
        all.facets.iter().map(|f| (f.asset_type.as_str().to_string(), f.count)).collect();
    assert_eq!(
        facets,
        vec![(text("GENSET"), 3), (text("PUMP"), 1), (text("MOTOR"), 1)]
    );

    let gensets = registry.search_assets(&SearchFilter { asset_type: Some(sym("GENSET")) });
    assert_eq!(gensets.total, 3);
    let ids: Vec<u64> = gensets.assets.iter().map(|a| a.asset_id).collect();
    assert_eq!(ids, vec![1, 3, 5]);
    assert_eq!(gensets.facets.len(), 1);
    assert_eq!(gensets.facets[0].count, 3);

    let none = registry.search_assets(&SearchFilter { asset_type: Some(sym("COMPR")) });
    assert_eq!(none.total, 0);
    assert!(none.facets.is_empty());
}

#[test]
fn client_facade_forwards_to_the_registry() {
    let env = Env::default();
    let mut client = MainstayClient::new(AssetRegistry::new());
    let owner = addr(1);
    let id = client.register_asset(&env, sym("GENSET"), text("CAT"), owner, 5).unwrap();
    assert_eq!(client.get_asset(id).unwrap().registered_at, 5);
    assert_eq!(
        client.register_asset(&env, sym("GENSET"), text("CAT"), owner, 6),
        Err(Failure::Contract(ContractError::DuplicateAsset))
    );
    let page = client.search_assets(&SearchFilter { asset_type: None });
    assert_eq!(page.total, 1);
    assert_eq!(client.registry_ref().asset_count(), 1);
}

#[test]
fn metadata_digest_is_a_hash_of_the_metadata() {
    let env = Env::default();
    let a = hash_metadata(&env, &text("alpha"));
    let b = hash_metadata(&env, &text("beta"));
    assert_eq!(a, hash_metadata(&env, &text("alpha")));
    assert_ne!(a, b);
    assert_ne!(a, [0u8; 32]);
}

#[test]
fn shared_admin_check() {
    assert_eq!(require_admin(&addr(1), &addr(1)), Ok(()));
    assert_eq!(require_admin(&addr(1), &addr(2)), Err(SharedContractError::UnauthorizedAdmin));
    assert_eq!(
        require_admin(&Address::account([1; 32]), &Address::contract([1; 32])),
        Err(SharedContractError::UnauthorizedAdmin)
    );
}

#[test]
fn symbols_follow_the_host_rules() {
    assert!(Symbol::new("OIL_CHG").is_some());
    assert!(Symbol::new("").is_some());
    assert!(Symbol::new("abcdefghijklmnopqrstuvwxyzABCDEF").is_some());
    assert!(Symbol::new("abcdefghijklmnopqrstuvwxyzABCDEFG").is_none());
    assert!(Symbol::new("OIL-CHG").is_none());
    assert!(Symbol::new("café").is_none());
    assert_eq!(sym("LUBE").as_str(), "LUBE");
    assert!(sym("LUBE").is("LUBE"));
    assert!(!sym("LUBE").is("LUBES"));
}

#[test]
fn addresses_compare_by_kind_and_key() {
    assert!(addr(4).same(&addr(4)));
    assert!(!addr(4).same(&addr(5)));
    assert!(!Address::account([4; 32]).same(&Address::contract([4; 32])));
}
