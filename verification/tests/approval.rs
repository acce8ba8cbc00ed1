//! Approval quorum: eligibility checks, promotion at exactly three
//! distinct approvals, and rejection of duplicates.

use qdao_audit_pallet::AccountId;
use qdao_audit_pallet::ApproverList;
use qdao_audit_pallet::AuditorData;
use qdao_audit_pallet::Error;
use qdao_audit_pallet::GenesisConfig;
use qdao_audit_pallet::Pallet;
use qdao_audit_pallet::new_test_ext;

/// A record of an already-approved auditor, as genesis seeds one: a full
/// approver list and a present score.
fn approved_record(score: u32, hash: u64) -> AuditorData {
    let mut list = ApproverList::new();
    assert!(list.try_push(100).is_ok());
    assert!(list.try_push(101).is_ok());
    assert!(list.try_push(102).is_ok());
    AuditorData { score: Some(score), profile_hash: hash, approved_by: list }
}

/// The test environment with accounts 10, 20 and 30 seeded as approved
/// auditors of the given score.
fn ext_with_approvers(score: u32) -> Pallet {
    let mut p = new_test_ext();
    let genesis = GenesisConfig {
        auditor_map: vec![
            (10 as AccountId, approved_record(score, 1)),
            (20 as AccountId, approved_record(score, 2)),
            (30 as AccountId, approved_record(score, 3)),
        ],
    };
    genesis.build(&mut p);
    p
}

#[test]
fn genesis_seeds_approved_auditors() {
    let p = ext_with_approvers(1000);
    let data = p.auditor_score(10).expect("seeded record must exist");
    assert_eq!(data.score, Some(1000));
    assert_eq!(data.approved_by.len(), 3);
    assert!(p.auditor_score(20).is_some());
    assert!(p.auditor_score(30).is_some());
    assert!(p.auditor_score(1).is_none());
}

#[test]
fn promotion_at_exactly_three_approvals() {
    let mut p = ext_with_approvers(1000);
    assert_eq!(p.sign_up(1, 7), Ok(()));
    assert_eq!(p.approve_auditor(10, 1), Ok(()));
    assert_eq!(p.auditor_score(1).unwrap().score, None);
    assert_eq!(p.approve_auditor(20, 1), Ok(()));
    assert_eq!(p.auditor_score(1).unwrap().score, None);
    assert_eq!(p.approve_auditor(30, 1), Ok(()));
    let data = p.auditor_score(1).expect("record must exist");
    assert_eq!(data.score, Some(1000));
    assert_eq!(data.approved_by.len(), 3);
}

#[test]
fn approvers_recorded_in_order() {
    let mut p = ext_with_approvers(1000);
    assert_eq!(p.sign_up(1, 7), Ok(()));
    assert_eq!(p.approve_auditor(20, 1), Ok(()));
    assert_eq!(p.approve_auditor(10, 1), Ok(()));
    let data = p.auditor_score(1).unwrap();
    assert_eq!(data.approved_by.len(), 2);
    assert_eq!(data.approved_by.index(0), 20);
    assert_eq!(data.approved_by.index(1), 10);
    assert!(data.approved_by.contains(10));
    assert!(!data.approved_by.contains(30));
}

#[test]
fn fourth_approval_fails_already_auditor() {
    let mut p = ext_with_approvers(1000);
    let extra = GenesisConfig { auditor_map: vec![(40 as AccountId, approved_record(1000, 4))] };
    extra.build(&mut p);
    assert_eq!(p.sign_up(1, 7), Ok(()));
    assert_eq!(p.approve_auditor(10, 1), Ok(()));
    assert_eq!(p.approve_auditor(20, 1), Ok(()));
    assert_eq!(p.approve_auditor(30, 1), Ok(()));
    assert_eq!(p.approve_auditor(40, 1), Err(Error::AlreadyAuditor));
    assert_eq!(p.auditor_score(1).unwrap().approved_by.len(), 3);
}

#[test]
fn double_approval_fails() {
    let mut p = ext_with_approvers(1000);
    assert_eq!(p.sign_up(1, 7), Ok(()));
    assert_eq!(p.approve_auditor(10, 1), Ok(()));
    assert_eq!(p.approve_auditor(10, 1), Err(Error::AlreadyApproved));
    assert_eq!(p.auditor_score(1).unwrap().approved_by.len(), 1);
}

#[test]
fn approval_by_unknown_sender_fails() {
    let mut p = ext_with_approvers(1000);
    assert_eq!(p.sign_up(1, 7), Ok(()));
    assert_eq!(p.approve_auditor(99, 1), Err(Error::UnknownAuditor));
}

#[test]
fn approval_by_pending_sender_fails() {
    let mut p = ext_with_approvers(1000);
    assert_eq!(p.sign_up(1, 7), Ok(()));
    assert_eq!(p.sign_up(2, 8), Ok(()));
    assert_eq!(p.approve_auditor(2, 1), Err(Error::UnapprovedAuditor));
}

#[test]
fn self_approval_while_pending_fails() {
    let mut p = ext_with_approvers(1000);
    assert_eq!(p.sign_up(1, 7), Ok(()));
    assert_eq!(p.approve_auditor(1, 1), Err(Error::UnapprovedAuditor));
}

#[test]
fn approval_below_reputation_threshold_fails() {
    let mut p = ext_with_approvers(99);
    assert_eq!(p.sign_up(1, 7), Ok(()));
    assert_eq!(p.approve_auditor(10, 1), Err(Error::ReputationTooLow));
}

#[test]
fn approval_of_unknown_candidate_fails() {
    let mut p = ext_with_approvers(1000);
    assert_eq!(p.approve_auditor(10, 99), Err(Error::UnknownApprovee));
}

#[test]
fn cancel_after_promotion_releases_stake() {
    let mut p = ext_with_approvers(1000);
    assert_eq!(p.sign_up(1, 7), Ok(()));
    assert_eq!(p.approve_auditor(10, 1), Ok(()));
    assert_eq!(p.approve_auditor(20, 1), Ok(()));
    assert_eq!(p.approve_auditor(30, 1), Ok(()));
    assert_eq!(p.cancel_account(1), Ok(()));
    assert!(p.auditor_score(1).is_none());
    assert_eq!(p.reserved_balance(1), 0);
    assert_eq!(p.free_balance(1), 10);
}
