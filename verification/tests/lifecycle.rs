//! Sign-up, profile update and cancellation, with their stake movements.

use qdao_audit_pallet::Error;
use qdao_audit_pallet::Event;
use qdao_audit_pallet::new_test_ext;

#[test]
fn sign_up_reserves_stake() {
    let mut p = new_test_ext();
    assert_eq!(p.sign_up(1, 7), Ok(()));
    let data = p.auditor_score(1).expect("record must exist");
    assert_eq!(data.score, None);
    assert_eq!(data.profile_hash, 7);
    assert_eq!(data.approved_by.len(), 0);
    assert_eq!(p.reserved_balance(1), 10);
    assert_eq!(p.free_balance(1), 0);
    assert_eq!(p.events().len(), 1);
    assert_eq!(p.events()[0], Event::SignedUp { who: 1 });
}

#[test]
fn sign_up_twice_fails() {
    let mut p = new_test_ext();
    assert_eq!(p.sign_up(1, 7), Ok(()));
    assert_eq!(p.sign_up(1, 8), Err(Error::AlreadySignedUp));
    assert_eq!(p.reserved_balance(1), 10);
    assert_eq!(p.events().len(), 1);
}

#[test]
fn sign_up_without_funds_fails() {
    let mut p = new_test_ext();
    assert_eq!(p.sign_up(4, 7), Err(Error::InsufficientStake));
    assert!(p.auditor_score(4).is_none());
    assert_eq!(p.reserved_balance(4), 0);
    assert_eq!(p.events().len(), 0);
}

#[test]
fn cancel_releases_stake() {
    let mut p = new_test_ext();
    assert_eq!(p.sign_up(1, 7), Ok(()));
    assert_eq!(p.cancel_account(1), Ok(()));
    assert!(p.auditor_score(1).is_none());
    assert_eq!(p.reserved_balance(1), 0);
    assert_eq!(p.free_balance(1), 10);
}

#[test]
fn cancel_unknown_fails() {
    let mut p = new_test_ext();
    assert_eq!(p.cancel_account(99), Err(Error::UnknownAuditor));
}

#[test]
fn sign_up_again_after_cancel() {
    let mut p = new_test_ext();
    assert_eq!(p.sign_up(1, 7), Ok(()));
    assert_eq!(p.cancel_account(1), Ok(()));
    assert_eq!(p.sign_up(1, 8), Ok(()));
    let data = p.auditor_score(1).expect("record must exist");
    assert_eq!(data.profile_hash, 8);
    assert_eq!(p.reserved_balance(1), 10);
}

#[test]
fn update_profile_replaces_hash_only() {
    let mut p = new_test_ext();
    assert_eq!(p.sign_up(1, 7), Ok(()));
    assert_eq!(p.update_profile(1, 9), Ok(()));
    let data = p.auditor_score(1).expect("record must exist");
    assert_eq!(data.profile_hash, 9);
    assert_eq!(data.score, None);
    assert_eq!(data.approved_by.len(), 0);
    assert_eq!(p.reserved_balance(1), 10);
    assert_eq!(p.events().len(), 1);
}

#[test]
fn update_profile_unknown_fails() {
    let mut p = new_test_ext();
    assert_eq!(p.update_profile(1, 9), Err(Error::UnknownAuditor));
}

#[test]
fn stake_matches_registration_through_sequence() {
    let mut p = new_test_ext();
    assert_eq!(p.sign_up(1, 7), Ok(()));
    assert_eq!(p.sign_up(2, 8), Ok(()));
    assert_eq!(p.sign_up(2, 8), Err(Error::AlreadySignedUp));
    assert_eq!(p.update_profile(1, 11), Ok(()));
    assert_eq!(p.cancel_account(2), Ok(()));
    assert_eq!(p.cancel_account(2), Err(Error::UnknownAuditor));
    assert_eq!(p.reserved_balance(1), 10);
    assert_eq!(p.reserved_balance(2), 0);
    assert_eq!(p.free_balance(2), 10);
    assert_eq!(p.reserved_balance(3), 0);
}
