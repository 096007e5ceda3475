use mainstay::address::Address;
use mainstay::digest::{compute_record_hash, zero_hash};
use mainstay::lifecycle::{BatchRecord, ContractError, Failure, Lifecycle, PRUNE_TIMELOCK_SECS};
use mainstay::registry::{AssetRegistry, ContractError as RegistryError};
use mainstay::symbol::Symbol;
use soroban_sdk::Env;

fn sym(text: &str) -> Symbol {
    Symbol::new(text).unwrap()
}

fn addr(n: u8) -> Address {
    Address::contract([n; 32])
}

fn text(s: &str) -> String {
    s.to_string()
}

/// A registry and a lifecycle contract bound to it, with `admin` as the
/// lifecycle admin.
fn setup(max_history: u32) -> (Lifecycle, AssetRegistry, Address) {
    let registry = AssetRegistry::new();
    let mut lifecycle = Lifecycle::new();
    let admin = addr(200);
    lifecycle.initialize(addr(201), addr(202), admin, max_history).unwrap();
    (lifecycle, registry, admin)
}

fn register_asset(env: &Env, registry: &mut AssetRegistry) -> u64 {
    let owner = addr(1);
    registry
        .register_asset(env, sym("GENSET"), text("Caterpillar 3516"), owner, 0)
        .unwrap()
}

/// An engineer the engineer registry verifies.
const VERIFIED: bool = true;
/// The engineer registry's answer for an engineer it does not know (or revoked).
const NOT_VERIFIED: bool = false;

fn engineer() -> Address {
    addr(50)
}

#[test]
fn test_submit_and_score() {
    let env = Env::default();
    let (mut client, mut registry, _) = setup(0);
    let asset_id = register_asset(&env, &mut registry);
    let engineer = engineer();

    // 10 oil changes at 2 points each = 20 points
    for _ in 0..10 {
        client
            .submit_maintenance(&env, &registry, VERIFIED, asset_id, sym("OIL_CHG"), text("Routine oil change"), engineer, 0)
            .unwrap();
    }

    assert_eq!(client.get_collateral_score(asset_id), 20);
    assert_eq!(client.get_maintenance_history(asset_id).len(), 10);
}

#[test]
#[should_panic]
fn test_submit_maintenance_nonexistent_asset() {
    let env = Env::default();
    let (mut client, registry, _) = setup(0);
    let engineer = engineer();

    client
        .submit_maintenance(&env, &registry, VERIFIED, 999, sym("OIL_CHG"), text("Should fail"), engineer, 0)
        .unwrap();
}

#[test]
#[should_panic]
fn test_history_cap_enforced() {
    let env = Env::default();
    let (mut client, mut registry, _) = setup(3);
    let asset_id = register_asset(&env, &mut registry);
    let engineer = engineer();

    for _ in 0..3 {
        client
            .submit_maintenance(&env, &registry, VERIFIED, asset_id, sym("OIL_CHG"), text("ok"), engineer, 0)
            .unwrap();
    }

    // This 4th submission fails (cap = 3)
    client
        .submit_maintenance(&env, &registry, VERIFIED, asset_id, sym("OIL_CHG"), text("over cap"), engineer, 0)
        .unwrap();
}

#[test]
fn test_unregistered_engineer_rejected() {
    let env = Env::default();
    let (mut client, mut registry, _) = setup(0);
    let asset_id = register_asset(&env, &mut registry);
    let unregistered = addr(77);

    let result = client.submit_maintenance(
        &env,
        &registry,
        NOT_VERIFIED,
        asset_id,
        sym("OIL_CHG"),
        text("Should fail"),
        unregistered,
        0,
    );
    assert_eq!(result, Err(Failure::Contract(ContractError::UnauthorizedEngineer)));
}

#[test]
fn test_get_last_service_no_history() {
    let env = Env::default();
    let (client, mut registry, _) = setup(0);
    let asset_id = register_asset(&env, &mut registry);
    let result = client.get_last_service(asset_id);
    assert_eq!(result, Err(Failure::Contract(ContractError::NoMaintenanceHistory)));
}

#[test]
fn test_admin_can_update_score_increment() {
    let env = Env::default();
    let (mut client, mut registry, admin) = setup(0);
    let asset_id = register_asset(&env, &mut registry);
    let engineer = engineer();

    client.update_score_increment(admin, 12).unwrap();
    client
        .submit_maintenance(&env, &registry, VERIFIED, asset_id, sym("OIL_CHG"), text("Configured increment"), engineer, 0)
        .unwrap();

    assert_eq!(client.get_collateral_score(asset_id), 12);
}

#[test]
fn test_non_admin_cannot_update_score_increment() {
    let (mut client, _, _) = setup(0);
    let outsider = addr(99);
    let result = client.update_score_increment(outsider, 12);
    assert_eq!(result, Err(Failure::Contract(ContractError::UnauthorizedAdmin)));
}

#[test]
fn lib_test_admin_can_upgrade() {
    let (client, _, admin) = setup(0);
    assert_eq!(client.upgrade(admin), Ok(()));
}

#[test]
fn lib_test_non_admin_cannot_upgrade() {
    let (client, _, _) = setup(0);
    let outsider = addr(99);
    assert_eq!(client.upgrade(outsider), Err(Failure::Contract(ContractError::UnauthorizedAdmin)));
}

#[test]
fn test_score_history_empty_before_any_maintenance() {
    let env = Env::default();
    let (client, mut registry, _) = setup(0);
    let asset_id = register_asset(&env, &mut registry);

    let history = client.get_score_history(asset_id);
    assert_eq!(history.len(), 0);
}

#[test]
fn test_score_history_records_entry_per_maintenance() {
    let env = Env::default();
    let (mut client, mut registry, _) = setup(0);
    let asset_id = register_asset(&env, &mut registry);
    let engineer = engineer();

    for (task, notes) in [("OIL_CHG", "First"), ("ENGINE", "Second"), ("FILTER", "Third")] {
        client
            .submit_maintenance(&env, &registry, VERIFIED, asset_id, sym(task), text(notes), engineer, 0)
            .unwrap();
    }

    let history = client.get_score_history(asset_id);
    assert_eq!(history.len(), 3);
}

#[test]
fn test_score_history_scores_are_cumulative() {
    let env = Env::default();
    let (mut client, mut registry, _) = setup(0);
    let asset_id = register_asset(&env, &mut registry);
    let engineer = engineer();

    // OIL_CHG = 2 pts, ENGINE = 10 pts, FILTER = 5 pts
    for (task, notes) in [("OIL_CHG", "a"), ("ENGINE", "b"), ("FILTER", "c")] {
        client
            .submit_maintenance(&env, &registry, VERIFIED, asset_id, sym(task), text(notes), engineer, 0)
            .unwrap();
    }

    let history = client.get_score_history(asset_id);
    assert_eq!(history[0].score, 2);
    assert_eq!(history[1].score, 12);
    assert_eq!(history[2].score, 17);
}

#[test]
fn test_score_history_timestamps_match_ledger() {
    let env = Env::default();
    let (mut client, mut registry, _) = setup(0);
    let asset_id = register_asset(&env, &mut registry);
    let engineer = engineer();

    let t0 = 0u64;
    client
        .submit_maintenance(&env, &registry, VERIFIED, asset_id, sym("OIL_CHG"), text("at t0"), engineer, t0)
        .unwrap();

    let t1 = t0 + 1000;
    client
        .submit_maintenance(&env, &registry, VERIFIED, asset_id, sym("LUBE"), text("at t1"), engineer, t1)
        .unwrap();

    let history = client.get_score_history(asset_id);
    assert_eq!(history[0].timestamp, t0);
    assert_eq!(history[1].timestamp, t1);
}

#[test]
fn test_score_history_capped_at_100() {
    let env = Env::default();
    let (mut client, mut registry, _) = setup(0);
    let asset_id = register_asset(&env, &mut registry);
    let engineer = engineer();

    for _ in 0..12 {
        client
            .submit_maintenance(&env, &registry, VERIFIED, asset_id, sym("REBUILD"), text("major"), engineer, 0)
            .unwrap();
    }

    let history = client.get_score_history(asset_id);
    for entry in history.iter() {
        assert!(entry.score <= 100);
    }
    assert_eq!(history[10].score, 100);
    assert_eq!(history[11].score, 100);
}

fn batch(entries: &[(&str, &str)]) -> Vec<BatchRecord> {
    entries
        .iter()
        .map(|(task, notes)| BatchRecord { task_type: sym(task), notes: text(notes) })
        .collect()
}

#[test]
fn test_batch_submit_maintenance() {
    let env = Env::default();
    let (mut client, mut registry, _) = setup(0);
    let asset_id = register_asset(&env, &mut registry);
    let engineer = engineer();

    let records = batch(&[("OIL_CHG", "Oil change"), ("INSPECT", "Inspection"), ("ENGINE", "Engine repair")]);
    client
        .batch_submit_maintenance(&env, &registry, VERIFIED, asset_id, &records, engineer, 0)
        .unwrap();

    // OIL_CHG=2, INSPECT=2, ENGINE=10 => 14
    assert_eq!(client.get_collateral_score(asset_id), 14);
    assert_eq!(client.get_maintenance_history(asset_id).len(), 3);
}

#[test]
#[should_panic(expected = "history cap reached")]
fn test_batch_submit_exceeds_history_cap() {
    let env = Env::default();
    let (mut client, mut registry, _) = setup(2);
    let asset_id = register_asset(&env, &mut registry);
    let engineer = engineer();

    let records = batch(&[("OIL_CHG", "First"), ("OIL_CHG", "Second"), ("OIL_CHG", "Third - over cap")]);
    client
        .batch_submit_maintenance(&env, &registry, VERIFIED, asset_id, &records, engineer, 0)
        .expect("history cap reached");
}

#[test]
fn test_batch_submit_unauthorized_engineer() {
    let env = Env::default();
    let (mut client, mut registry, _) = setup(0);
    let asset_id = register_asset(&env, &mut registry);
    let unregistered = addr(77);

    let records = batch(&[("OIL_CHG", "Should fail")]);
    let result =
        client.batch_submit_maintenance(&env, &registry, NOT_VERIFIED, asset_id, &records, unregistered, 0);
    assert_eq!(result, Err(Failure::Contract(ContractError::UnauthorizedEngineer)));
}

#[test]
fn test_submit_maintenance_unregistered_engineer_should_panic() {
    let env = Env::default();
    let (mut client, mut registry, _) = setup(0);
    let asset_id = register_asset(&env, &mut registry);
    let unregistered = addr(77);

    let result = client.submit_maintenance(
        &env,
        &registry,
        NOT_VERIFIED,
        asset_id,
        sym("OIL_CHG"),
        text("Should fail"),
        unregistered,
        0,
    );
    assert_eq!(result, Err(Failure::Contract(ContractError::UnauthorizedEngineer)));
}

#[test]
fn test_collateral_score_caps_at_100() {
    let env = Env::default();
    let (mut client, mut registry, _) = setup(0);
    let asset_id = register_asset(&env, &mut registry);
    let engineer = engineer();

    // FILTER = 5 points each; 25 submissions would be 125 without a cap
    for _ in 0..25 {
        client
            .submit_maintenance(&env, &registry, VERIFIED, asset_id, sym("FILTER"), text("Filter replacement"), engineer, 0)
            .unwrap();
    }

    assert_eq!(client.get_collateral_score(asset_id), 100);
}

#[test]
fn test_submit_maintenance_revoked_engineer_should_panic() {
    let env = Env::default();
    let (mut client, mut registry, _) = setup(0);
    let asset_id = register_asset(&env, &mut registry);
    let engineer = engineer();

    // The engineer registry no longer verifies a revoked engineer.
    let result = client.submit_maintenance(
        &env,
        &registry,
        NOT_VERIFIED,
        asset_id,
        sym("OIL_CHG"),
        text("Post-revocation attempt"),
        engineer,
        0,
    );
    assert_eq!(result, Err(Failure::Contract(ContractError::UnauthorizedEngineer)));
}

#[test]
fn test_prune_asset_history_requires_timelock() {
    let env = Env::default();
    let (mut client, mut registry, admin) = setup(0);
    let asset_id = register_asset(&env, &mut registry);
    let engineer = engineer();
    client
        .submit_maintenance(&env, &registry, VERIFIED, asset_id, sym("OIL_CHG"), text("before prune"), engineer, 0)
        .unwrap();

    client.propose_prune_asset_history(admin, asset_id, 0).unwrap();

    let result = client.execute_prune_asset_history(admin, asset_id, 0);
    assert_eq!(result, Err(Failure::Contract(ContractError::PruneTimelockNotElapsed)));
    assert_eq!(client.get_maintenance_history(asset_id).len(), 1);
}

#[test]
fn test_prune_asset_history_succeeds_after_timelock() {
    let env = Env::default();
    let (mut client, mut registry, admin) = setup(0);
    let asset_id = register_asset(&env, &mut registry);
    let engineer = engineer();
    client
        .submit_maintenance(&env, &registry, VERIFIED, asset_id, sym("OIL_CHG"), text("before prune"), engineer, 0)
        .unwrap();

    client.propose_prune_asset_history(admin, asset_id, 0).unwrap();
    client.execute_prune_asset_history(admin, asset_id, PRUNE_TIMELOCK_SECS + 1).unwrap();

    assert_eq!(client.get_maintenance_history(asset_id).len(), 0);
}

#[test]
fn test_prune_asset_history_no_pending_proposal() {
    let env = Env::default();
    let (mut client, mut registry, admin) = setup(0);
    let asset_id = register_asset(&env, &mut registry);

    let result = client.execute_prune_asset_history(admin, asset_id, 0);
    assert_eq!(result, Err(Failure::Contract(ContractError::NoPrunePending)));
}

#[test]
fn test_prune_asset_history_non_admin_cannot_propose() {
    let env = Env::default();
    let (mut client, mut registry, _) = setup(0);
    let asset_id = register_asset(&env, &mut registry);
    let outsider = addr(99);

    let result = client.propose_prune_asset_history(outsider, asset_id, 0);
    assert_eq!(result, Err(Failure::Contract(ContractError::UnauthorizedAdmin)));
}

#[test]
fn test_grace_period_record_is_flagged_and_penalized() {
    let env = Env::default();
    let (mut client, mut registry, admin) = setup(0);
    let asset_id = register_asset(&env, &mut registry);
    let engineer = engineer();

    let now = 0u64;
    client.set_credential_grace_period(admin, engineer, now + 1000).unwrap();

    client
        .submit_maintenance(&env, &registry, VERIFIED, asset_id, sym("ENGINE"), text("grace period service"), engineer, now)
        .unwrap();

    let history = client.get_maintenance_history(asset_id);
    assert!(history[0].signed_during_grace_period);
    // Halved weight: 10 -> 5
    assert_eq!(client.get_collateral_score(asset_id), 5);
}

#[test]
fn test_non_grace_period_record_is_not_flagged() {
    let env = Env::default();
    let (mut client, mut registry, _) = setup(0);
    let asset_id = register_asset(&env, &mut registry);
    let engineer = engineer();

    client
        .submit_maintenance(&env, &registry, VERIFIED, asset_id, sym("ENGINE"), text("normal service"), engineer, 0)
        .unwrap();

    let history = client.get_maintenance_history(asset_id);
    assert!(!history[0].signed_during_grace_period);
    assert_eq!(client.get_collateral_score(asset_id), 10);
}

#[test]
fn test_grace_period_expired_does_not_flag_record() {
    let env = Env::default();
    let (mut client, mut registry, admin) = setup(0);
    let asset_id = register_asset(&env, &mut registry);
    let engineer = engineer();

    let now = 0u64;
    client.set_credential_grace_period(admin, engineer, now + 10).unwrap();
    let later = now + 1000;

    client
        .submit_maintenance(
            &env,
            &registry,
            VERIFIED,
            asset_id,
            sym("ENGINE"),
            text("after grace period expired"),
            engineer,
            later,
        )
        .unwrap();

    let history = client.get_maintenance_history(asset_id);
    assert!(!history[0].signed_during_grace_period);
    assert_eq!(client.get_collateral_score(asset_id), 10);
}

#[test]
fn test_record_hash_excludes_notes_and_is_deterministic() {
    let env = Env::default();
    let asset_id = 1u64;
    let task_type = sym("OIL_CHG");
    let engineer = engineer();
    let timestamp = 1000u64;
    let prev = zero_hash();

    let hash_a = compute_record_hash(&env, asset_id, &task_type, &engineer, timestamp, 0, &prev);
    let hash_b = compute_record_hash(&env, asset_id, &task_type, &engineer, timestamp, 0, &prev);
    assert_eq!(hash_a, hash_b);

    let hash_c = compute_record_hash(&env, asset_id, &task_type, &engineer, timestamp, 1, &prev);
    assert_ne!(hash_a, hash_c);
}

#[test]
fn test_maintenance_history_hash_chain_links_records() {
    let env = Env::default();
    let (mut client, mut registry, _) = setup(0);
    let asset_id = register_asset(&env, &mut registry);
    let engineer = engineer();

    client
        .submit_maintenance(&env, &registry, VERIFIED, asset_id, sym("OIL_CHG"), text("first, arbitrary notes A"), engineer, 0)
        .unwrap();
    client
        .submit_maintenance(
            &env,
            &registry,
            VERIFIED,
            asset_id,
            sym("OIL_CHG"),
            text("second, wildly different notes!!"),
            engineer,
            0,
        )
        .unwrap();

    let history = client.get_maintenance_history(asset_id);
    let first = &history[0];
    let second = &history[1];

    assert_eq!(first.prev_hash, zero_hash());
    assert_eq!(second.prev_hash, first.record_hash);
    assert_ne!(first.record_hash, second.record_hash);
}

#[test]
fn test_submit_for_unknown_asset_reports_registry_error() {
    let env = Env::default();
    let (mut client, registry, _) = setup(0);
    let result =
        client.submit_maintenance(&env, &registry, VERIFIED, 42, sym("OIL_CHG"), text("x"), engineer(), 0);
    assert_eq!(result, Err(Failure::Asset(RegistryError::AssetNotFound)));
    assert_eq!(client.get_maintenance_history(42).len(), 0);
}
