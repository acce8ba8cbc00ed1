//! Contest recording: eligibility, score movement, draws, and overflow.

use qdao_audit_pallet::AccountId;
use qdao_audit_pallet::ApproverList;
use qdao_audit_pallet::AuditorData;
use qdao_audit_pallet::Error;
use qdao_audit_pallet::Event;
use qdao_audit_pallet::GenesisConfig;
use qdao_audit_pallet::Pallet;
use qdao_audit_pallet::Winner;
use qdao_audit_pallet::new_test_ext;

/// A record of an already-approved auditor, as genesis seeds one.
fn approved_record(score: u32, hash: u64) -> AuditorData {
    let mut list = ApproverList::new();
    assert!(list.try_push(100).is_ok());
    assert!(list.try_push(101).is_ok());
    assert!(list.try_push(102).is_ok());
    AuditorData { score: Some(score), profile_hash: hash, approved_by: list }
}

/// The test environment with two approved auditors of the given scores at
/// accounts 10 and 20.
fn ext_with_players(score0: u32, score1: u32) -> Pallet {
    let mut p = new_test_ext();
    let genesis = GenesisConfig {
        auditor_map: vec![
            (10 as AccountId, approved_record(score0, 1)),
            (20 as AccountId, approved_record(score1, 2)),
        ],
    };
    genesis.build(&mut p);
    p
}

#[test]
fn underdog_win_moves_both_scores() {
    let mut p = ext_with_players(1000, 1200);
    assert_eq!(p.game_result(10, 20, Winner::Player0), Ok(()));
    let s0 = p.auditor_score(10).unwrap().score.unwrap();
    let s1 = p.auditor_score(20).unwrap().score.unwrap();
    assert_eq!(s0, 1024);
    assert_eq!(s1, 1176);
    assert!(s0 > 1000 && s1 < 1200);
    assert!(s0 - 1000 <= 32 && 1200 - s1 <= 32);
    assert_eq!(
        p.events()[0],
        Event::GameResult { player0: 10, player1: 20, winner: Winner::Player0 }
    );
}

#[test]
fn winner_player1_maps_scores_back() {
    let mut p = ext_with_players(1000, 1200);
    assert_eq!(p.game_result(10, 20, Winner::Player1), Ok(()));
    let s0 = p.auditor_score(10).unwrap().score.unwrap();
    let s1 = p.auditor_score(20).unwrap().score.unwrap();
    assert_eq!(s1, 1208);
    assert_eq!(s0, 992);
    assert_eq!(1000 - s0, s1 - 1200);
}

#[test]
fn draw_changes_nothing_and_emits_nothing() {
    let mut p = ext_with_players(1000, 1200);
    assert_eq!(p.game_result(10, 20, Winner::Draw), Ok(()));
    assert_eq!(p.auditor_score(10).unwrap().score, Some(1000));
    assert_eq!(p.auditor_score(20).unwrap().score, Some(1200));
    assert_eq!(p.reserved_balance(10), 0);
    assert_eq!(p.events().len(), 0);
}

#[test]
fn contest_with_unknown_player_fails() {
    let mut p = ext_with_players(1000, 1200);
    assert_eq!(p.game_result(10, 99, Winner::Player0), Err(Error::UnknownAuditor));
    assert_eq!(p.game_result(99, 20, Winner::Player0), Err(Error::UnknownAuditor));
    assert_eq!(p.auditor_score(10).unwrap().score, Some(1000));
    assert_eq!(p.events().len(), 0);
}

#[test]
fn contest_with_pending_player_fails() {
    let mut p = ext_with_players(1000, 1200);
    assert_eq!(p.sign_up(1, 7), Ok(()));
    assert_eq!(p.game_result(10, 1, Winner::Player0), Err(Error::UnapprovedAuditor));
    assert_eq!(p.game_result(1, 20, Winner::Player1), Err(Error::UnapprovedAuditor));
}

#[test]
fn contest_overflow_is_rejected() {
    let mut p = ext_with_players(u32::MAX, u32::MAX);
    assert_eq!(p.game_result(10, 20, Winner::Player0), Err(Error::UnexpectedEloOverflow));
    assert_eq!(p.auditor_score(10).unwrap().score, Some(u32::MAX));
    assert_eq!(p.auditor_score(20).unwrap().score, Some(u32::MAX));
    assert_eq!(p.events().len(), 0);
}

#[test]
fn apply_result_matches_game_result() {
    let mut p = ext_with_players(1000, 1200);
    assert_eq!(p.apply_result(10, 20, Winner::Player0), Ok(()));
    assert_eq!(p.auditor_score(10).unwrap().score, Some(1024));
    assert_eq!(p.auditor_score(20).unwrap().score, Some(1176));
}

#[test]
fn contest_leaves_stake_untouched() {
    let mut p = new_test_ext();
    let genesis = GenesisConfig {
        auditor_map: vec![
            (1 as AccountId, approved_record(1000, 1)),
            (2 as AccountId, approved_record(1000, 2)),
        ],
    };
    genesis.build(&mut p);
    assert_eq!(p.game_result(1, 2, Winner::Player0), Ok(()));
    assert_eq!(p.reserved_balance(1), 0);
    assert_eq!(p.reserved_balance(2), 0);
    assert_eq!(p.free_balance(1), 10);
}
