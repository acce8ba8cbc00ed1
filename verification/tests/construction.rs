//! Engine construction, configuration and the approver list's bounds.

use qdao_audit_pallet::ApproverList;
use qdao_audit_pallet::Config;
use qdao_audit_pallet::Error;
use qdao_audit_pallet::GenesisConfig;
use qdao_audit_pallet::Pallet;
use qdao_audit_pallet::new_test_ext;

#[test]
fn new_engine_is_empty() {
    let p = Pallet::new(Config {
        min_auditor_stake: 5,
        initial_auditor_score: 700,
        minimal_approver_score: 50,
        elo_k: 16,
    });
    assert!(p.auditor_score(1).is_none());
    assert_eq!(p.free_balance(1), 0);
    assert_eq!(p.reserved_balance(1), 0);
    assert_eq!(p.events().len(), 0);
    assert_eq!(p.config().min_auditor_stake, 5);
    assert_eq!(p.config().elo_k, 16);
}

#[test]
fn custom_config_drives_the_rules() {
    let mut p = Pallet::new(Config {
        min_auditor_stake: 5,
        initial_auditor_score: 700,
        minimal_approver_score: 50,
        elo_k: 16,
    });
    p.set_free_balance(1, 4);
    assert_eq!(p.sign_up(1, 7), Err(Error::InsufficientStake));
    p.set_free_balance(1, 5);
    assert_eq!(p.sign_up(1, 7), Ok(()));
    assert_eq!(p.reserved_balance(1), 5);
    assert_eq!(p.free_balance(1), 0);
}

#[test]
fn test_ext_seeds_balances() {
    let p = new_test_ext();
    assert_eq!(p.free_balance(1), 10);
    assert_eq!(p.free_balance(2), 10);
    assert_eq!(p.free_balance(3), 10);
    assert_eq!(p.free_balance(10), 100);
    assert_eq!(p.free_balance(20), 100);
    assert_eq!(p.free_balance(30), 100);
    assert_eq!(p.free_balance(4), 0);
    assert_eq!(p.config().min_auditor_stake, 10);
}

#[test]
fn default_genesis_changes_nothing() {
    let mut p = new_test_ext();
    let genesis = GenesisConfig::default();
    genesis.build(&mut p);
    assert!(p.auditor_score(1).is_none());
    assert_eq!(p.events().len(), 0);
}

#[test]
fn approver_list_rejects_a_fourth_entry() {
    let mut list = ApproverList::new();
    assert_eq!(list.try_push(1), Ok(()));
    assert_eq!(list.try_push(2), Ok(()));
    assert_eq!(list.try_push(3), Ok(()));
    assert_eq!(list.try_push(4), Err(Error::StorageOverflow));
    assert_eq!(list.len(), 3);
    assert!(list.contains(2));
    assert!(!list.contains(4));
}
