//! Exact values of the fixed-point Elo update.

use qdao_audit_pallet::EloError;
use qdao_audit_pallet::EloRank;

#[test]
fn equal_scores_gain_half_k() {
    let elo = EloRank { k: 32 };
    assert_eq!(elo.calculate(1000, 1000), Ok((1016, 984)));
}

#[test]
fn equal_scores_odd_k_rounds_half_up() {
    let elo = EloRank { k: 31 };
    assert_eq!(elo.calculate(1000, 1000), Ok((1016, 984)));
}

#[test]
fn gain_and_loss_are_symmetric() {
    let elo = EloRank { k: 32 };
    let (w, l) = elo.calculate(1000, 1200).unwrap();
    assert_eq!(w - 1000, 1200 - l);
}

#[test]
fn underdog_win_gains_more() {
    let elo = EloRank { k: 32 };
    assert_eq!(elo.calculate(1000, 1200), Ok((1024, 1176)));
}

#[test]
fn favorite_win_gains_less() {
    let elo = EloRank { k: 32 };
    assert_eq!(elo.calculate(1200, 1000), Ok((1208, 992)));
}

#[test]
fn huge_lead_gains_nothing() {
    let elo = EloRank { k: 32 };
    assert_eq!(elo.calculate(4000, 0), Ok((4000, 0)));
}

#[test]
fn huge_upset_gains_full_k() {
    let elo = EloRank { k: 32 };
    assert_eq!(elo.calculate(0, 4000), Ok((32, 3968)));
}

#[test]
fn winner_overflow_is_reported() {
    let elo = EloRank { k: 32 };
    assert_eq!(elo.calculate(u32::MAX, u32::MAX), Err(EloError::Overflow));
}

#[test]
fn loser_underflow_is_reported() {
    let elo = EloRank { k: 32 };
    assert_eq!(elo.calculate(0, 0), Err(EloError::Overflow));
}
