//! Abstract state of the engine, the transition each operation performs,
//! and the laws the transitions obey.
//!
//! Each operation of [`crate::pallet::Pallet`] is specified by a pair of
//! functions here: `..._res` gives the exact `Result` the operation
//! returns, `..._post` the state it leaves behind on success (a failed
//! operation never changes the state).

use vstd::prelude::*;

use crate::elo::elo_delta;
use crate::types::AccountId;
use crate::types::AuditorRec;
use crate::types::Balance;
use crate::types::Config;
use crate::types::Error;
use crate::types::Event;
use crate::types::ProfileHash;
use crate::types::QUORUM;
use crate::types::Winner;
use crate::types::rec_wf;

verus! {

/// The engine's full abstract state: the registry of auditor records, the
/// stake ledger's free and reserved balances (total over all accounts,
/// zero where never touched), and the notifications emitted so far.
#[verifier::ext_equal]
pub ghost struct State {
    /// Configuration fixed at construction.
    pub config: Config,
    /// One record per signed-up account.
    pub auditors: Map<AccountId, AuditorRec>,
    /// Free balance of every account.
    pub free: Map<AccountId, Balance>,
    /// Balance reserved as auditor stake, per account.
    pub reserved: Map<AccountId, Balance>,
    /// Notifications in order of emission.
    pub events: Seq<Event>,
}

/// Well-formedness kept by every operation: every record satisfies
/// [`rec_wf`], and no account's total balance exceeds the balance width.
pub open spec fn state_wf(s: State) -> bool {
    &&& forall|a: AccountId| s.auditors.contains_key(a) ==> rec_wf(#[trigger] s.auditors[a])
    &&& forall|a: AccountId| #[trigger] s.free[a] + s.reserved[a] <= Balance::MAX
}

/// Stake conservation: an account has exactly the minimum stake reserved
/// while it holds a record, and nothing reserved otherwise.
pub open spec fn stake_conserved(s: State) -> bool {
    forall|a: AccountId|
        #[trigger] s.reserved[a] == if s.auditors.contains_key(a) {
            s.config.min_auditor_stake
        } else {
            0
        }
}

/// The state a fresh engine starts from: no records, no balances, no
/// events.
pub open spec fn init_state(config: Config) -> State {
    State {
        config,
        auditors: Map::empty(),
        free: Map::new(|a: AccountId| true, |a: AccountId| 0),
        reserved: Map::new(|a: AccountId| true, |a: AccountId| 0),
        events: Seq::empty(),
    }
}

/// Result of `sign_up`: rejected if the caller already holds a record or
/// cannot cover the minimum stake.
pub open spec fn sign_up_res(s: State, caller: AccountId) -> Result<(), Error> {
    if s.auditors.contains_key(caller) {
        Err(Error::AlreadySignedUp)
    } else if s.free[caller] < s.config.min_auditor_stake {
        Err(Error::InsufficientStake)
    } else {
        Ok(())
    }
}

/// State after a successful `sign_up`: the minimum stake moves from free
/// to reserved, a pending record is created, and a sign-up notification is
/// emitted.
pub open spec fn sign_up_post(s: State, caller: AccountId, profile_hash: ProfileHash) -> State {
    State {
        config: s.config,
        auditors: s.auditors.insert(
            caller,
            AuditorRec { score: None, profile_hash, approved_by: Seq::empty() },
        ),
        free: s.free.insert(caller, (s.free[caller] - s.config.min_auditor_stake) as Balance),
        reserved: s.reserved.insert(
            caller,
            (s.reserved[caller] + s.config.min_auditor_stake) as Balance,
        ),
        events: s.events.push(Event::SignedUp { who: caller }),
    }
}

/// Result of `update_profile`: rejected if the caller holds no record.
pub open spec fn update_profile_res(s: State, caller: AccountId) -> Result<(), Error> {
    if s.auditors.contains_key(caller) {
        Ok(())
    } else {
        Err(Error::UnknownAuditor)
    }
}

/// State after a successful `update_profile`: only the caller's profile
/// hash changes.
pub open spec fn update_profile_post(
    s: State,
    caller: AccountId,
    profile_hash: ProfileHash,
) -> State {
    let r0: AuditorRec = s.auditors[caller];
    State {
        config: s.config,
        auditors: s.auditors.insert(
            caller,
            AuditorRec { score: r0.score, profile_hash, approved_by: r0.approved_by },
        ),
        free: s.free,
        reserved: s.reserved,
        events: s.events,
    }
}

/// Result of `cancel_account`: rejected if the caller holds no record.
pub open spec fn cancel_account_res(s: State, caller: AccountId) -> Result<(), Error> {
    if s.auditors.contains_key(caller) {
        Ok(())
    } else {
        Err(Error::UnknownAuditor)
    }
}

/// State after a successful `cancel_account`: the record is removed and
/// the reserved stake — up to the configured minimum — returns to the free
/// balance.
pub open spec fn cancel_account_post(s: State, caller: AccountId) -> State {
    let freed: Balance = if s.config.min_auditor_stake <= s.reserved[caller] {
        s.config.min_auditor_stake
    } else {
        s.reserved[caller]
    };
    State {
        config: s.config,
        auditors: s.auditors.remove(caller),
        free: s.free.insert(caller, (s.free[caller] + freed) as Balance),
        reserved: s.reserved.insert(caller, (s.reserved[caller] - freed) as Balance),
        events: s.events,
    }
}

/// Result of `approve_auditor`: the sender must be a registered, approved
/// auditor of sufficient reputation; the candidate must be registered,
/// still pending, and not already approved by the sender.  The capacity
/// check is defensive: for well-formed states a pending record always has
/// room.
pub open spec fn approve_auditor_res(
    s: State,
    sender: AccountId,
    to_approve: AccountId,
) -> Result<(), Error> {
    if !s.auditors.contains_key(sender) {
        Err(Error::UnknownAuditor)
    } else if s.auditors[sender].score is None {
        Err(Error::UnapprovedAuditor)
    } else if s.auditors[sender].score.unwrap() < s.config.minimal_approver_score {
        Err(Error::ReputationTooLow)
    } else if !s.auditors.contains_key(to_approve) {
        Err(Error::UnknownApprovee)
    } else if s.auditors[to_approve].score is Some {
        Err(Error::AlreadyAuditor)
    } else if s.auditors[to_approve].approved_by.contains(sender) {
        Err(Error::AlreadyApproved)
    } else if s.auditors[to_approve].approved_by.len() >= QUORUM {
        Err(Error::StorageOverflow)
    } else {
        Ok(())
    }
}

/// State after a successful `approve_auditor`: the sender joins the
/// candidate's approver list; the instant the list reaches the quorum the
/// candidate's score becomes the configured initial score.
pub open spec fn approve_auditor_post(
    s: State,
    sender: AccountId,
    to_approve: AccountId,
) -> State {
    let r0: AuditorRec = s.auditors[to_approve];
    let approved: Seq<AccountId> = r0.approved_by.push(sender);
    let score: Option<u32> = if approved.len() == QUORUM {
        Some(s.config.initial_auditor_score)
    } else {
        None
    };
    State {
        config: s.config,
        auditors: s.auditors.insert(
            to_approve,
            AuditorRec { score, profile_hash: r0.profile_hash, approved_by: approved },
        ),
        free: s.free,
        reserved: s.reserved,
        events: s.events,
    }
}

/// Result of `game_result`: both players must be registered, approved
/// auditors; a draw succeeds without effect; otherwise the rating update
/// must stay within the score's unsigned range.
pub open spec fn game_result_res(
    s: State,
    player0: AccountId,
    player1: AccountId,
    winner: Winner,
) -> Result<(), Error> {
    if !s.auditors.contains_key(player0) {
        Err(Error::UnknownAuditor)
    } else if s.auditors[player0].score is None {
        Err(Error::UnapprovedAuditor)
    } else if !s.auditors.contains_key(player1) {
        Err(Error::UnknownAuditor)
    } else if s.auditors[player1].score is None {
        Err(Error::UnapprovedAuditor)
    } else if winner is Draw {
        Ok(())
    } else {
        let ws: int = if winner is Player0 {
            s.auditors[player0].score.unwrap() as int
        } else {
            s.auditors[player1].score.unwrap() as int
        };
        let ls: int = if winner is Player0 {
            s.auditors[player1].score.unwrap() as int
        } else {
            s.auditors[player0].score.unwrap() as int
        };
        let delta: int = elo_delta(s.config.elo_k as int, ws, ls);
        if ws + delta > u32::MAX as int || ls - delta < 0 {
            Err(Error::UnexpectedEloOverflow)
        } else {
            Ok(())
        }
    }
}

/// State after a successful `game_result`.  A draw is a deliberate no-op:
/// no score changes and no notification.  Otherwise the winner gains and
/// the loser loses the same `delta`, written back in player order, and a
/// contest notification is emitted.  The two writes happen in sequence, so
/// if both players name the same account the second write is the one that
/// lasts.
pub open spec fn game_result_post(
    s: State,
    player0: AccountId,
    player1: AccountId,
    winner: Winner,
) -> State {
    if winner is Draw {
        s
    } else {
        let ws: int = if winner is Player0 {
            s.auditors[player0].score.unwrap() as int
        } else {
            s.auditors[player1].score.unwrap() as int
        };
        let ls: int = if winner is Player0 {
            s.auditors[player1].score.unwrap() as int
        } else {
            s.auditors[player0].score.unwrap() as int
        };
        let delta: int = elo_delta(s.config.elo_k as int, ws, ls);
        let new0: u32 = if winner is Player0 { (ws + delta) as u32 } else { (ls - delta) as u32 };
        let new1: u32 = if winner is Player0 { (ls - delta) as u32 } else { (ws + delta) as u32 };
        let r0: AuditorRec = s.auditors[player0];
        let m1: Map<AccountId, AuditorRec> = s.auditors.insert(
            player0,
            AuditorRec { score: Some(new0), profile_hash: r0.profile_hash, approved_by: r0.approved_by },
        );
        let r1: AuditorRec = m1[player1];
        let m2: Map<AccountId, AuditorRec> = m1.insert(
            player1,
            AuditorRec { score: Some(new1), profile_hash: r1.profile_hash, approved_by: r1.approved_by },
        );
        State {
            config: s.config,
            auditors: m2,
            free: s.free,
            reserved: s.reserved,
            events: s.events.push(Event::GameResult { player0, player1, winner }),
        }
    }
}

/// A fresh engine is well formed and conserves stake.
pub proof fn lemma_init_state_ok(config: Config)
    ensures
        state_wf(init_state(config)),
        stake_conserved(init_state(config)),
{
}

/// `sign_up` keeps the state well formed and conserves stake: the new
/// pending record is paired with exactly the minimum stake reserved.
pub proof fn lemma_sign_up_preserves(s: State, caller: AccountId, profile_hash: ProfileHash)
    requires
        state_wf(s),
        sign_up_res(s, caller) is Ok,
    ensures
        state_wf(sign_up_post(s, caller, profile_hash)),
        stake_conserved(s) ==> stake_conserved(sign_up_post(s, caller, profile_hash)),
{
    let post: State = sign_up_post(s, caller, profile_hash);
    assert forall|a: AccountId| post.auditors.contains_key(a) implies rec_wf(
        #[trigger] post.auditors[a],
    ) by {
        if a != caller {
            assert(rec_wf(s.auditors[a]));
        }
    }
    assert forall|a: AccountId| #[trigger] post.free[a] + post.reserved[a] <= Balance::MAX by {
        assert(s.free[a] + s.reserved[a] <= Balance::MAX);
    }
    if stake_conserved(s) {
        assert forall|a: AccountId| #[trigger] post.reserved[a] == if post.auditors.contains_key(
            a,
        ) {
            post.config.min_auditor_stake
        } else {
            0
        } by {
            assert(s.reserved[a] == if s.auditors.contains_key(a) {
                s.config.min_auditor_stake
            } else {
                0
            });
        }
    }
}

/// `update_profile` keeps the state well formed and conserves stake: it
/// changes nothing but one record's profile hash.
pub proof fn lemma_update_profile_preserves(s: State, caller: AccountId, profile_hash: ProfileHash)
    requires
        state_wf(s),
        update_profile_res(s, caller) is Ok,
    ensures
        state_wf(update_profile_post(s, caller, profile_hash)),
        stake_conserved(s) ==> stake_conserved(update_profile_post(s, caller, profile_hash)),
{
    let post: State = update_profile_post(s, caller, profile_hash);
    assert forall|a: AccountId| post.auditors.contains_key(a) implies rec_wf(
        #[trigger] post.auditors[a],
    ) by {
        assert(rec_wf(s.auditors[a]));
    }
    if stake_conserved(s) {
        assert forall|a: AccountId| #[trigger] post.reserved[a] == if post.auditors.contains_key(
            a,
        ) {
            post.config.min_auditor_stake
        } else {
            0
        } by {
            assert(s.reserved[a] == if s.auditors.contains_key(a) {
                s.config.min_auditor_stake
            } else {
                0
            });
        }
    }
}

/// `cancel_account` keeps the state well formed and conserves stake: the
/// record disappears together with its reserved stake, which returns to
/// the free balance.
pub proof fn lemma_cancel_account_preserves(s: State, caller: AccountId)
    requires
        state_wf(s),
        cancel_account_res(s, caller) is Ok,
    ensures
        state_wf(cancel_account_post(s, caller)),
        stake_conserved(s) ==> stake_conserved(cancel_account_post(s, caller)),
{
    let post: State = cancel_account_post(s, caller);
    assert forall|a: AccountId| post.auditors.contains_key(a) implies rec_wf(
        #[trigger] post.auditors[a],
    ) by {
        assert(rec_wf(s.auditors[a]));
    }
    assert forall|a: AccountId| #[trigger] post.free[a] + post.reserved[a] <= Balance::MAX by {
        assert(s.free[a] + s.reserved[a] <= Balance::MAX);
    }
    if stake_conserved(s) {
        assert forall|a: AccountId| #[trigger] post.reserved[a] == if post.auditors.contains_key(
            a,
        ) {
            post.config.min_auditor_stake
        } else {
            0
        } by {
            assert(s.reserved[a] == if s.auditors.contains_key(a) {
                s.config.min_auditor_stake
            } else {
                0
            });
        }
    }
}

/// `approve_auditor` keeps the state well formed and conserves stake: the
/// candidate's approver list grows by one distinct entry, within capacity,
/// and the score appears exactly when the quorum is reached.
pub proof fn lemma_approve_auditor_preserves(s: State, sender: AccountId, to_approve: AccountId)
    requires
        state_wf(s),
        approve_auditor_res(s, sender, to_approve) is Ok,
    ensures
        state_wf(approve_auditor_post(s, sender, to_approve)),
        stake_conserved(s) ==> stake_conserved(approve_auditor_post(s, sender, to_approve)),
{
    let post: State = approve_auditor_post(s, sender, to_approve);
    let r0: AuditorRec = s.auditors[to_approve];
    let approved: Seq<AccountId> = r0.approved_by.push(sender);
    assert(rec_wf(r0));
    assert forall|i: int, j: int| 0 <= i < j < approved.len() implies approved[i] != approved[j] by {
        if j == approved.len() - 1 {
            assert(approved[i] == r0.approved_by[i]);
            assert(!r0.approved_by.contains(sender));
        }
    }
    assert forall|a: AccountId| post.auditors.contains_key(a) implies rec_wf(
        #[trigger] post.auditors[a],
    ) by {
        if a != to_approve {
            assert(rec_wf(s.auditors[a]));
        }
    }
    if stake_conserved(s) {
        assert forall|a: AccountId| #[trigger] post.reserved[a] == if post.auditors.contains_key(
            a,
        ) {
            post.config.min_auditor_stake
        } else {
            0
        } by {
            assert(s.reserved[a] == if s.auditors.contains_key(a) {
                s.config.min_auditor_stake
            } else {
                0
            });
        }
    }
}

/// `game_result` keeps the state well formed and conserves stake: both
/// players stay approved auditors; only their scores move.
pub proof fn lemma_game_result_preserves(
    s: State,
    player0: AccountId,
    player1: AccountId,
    winner: Winner,
)
    requires
        state_wf(s),
        game_result_res(s, player0, player1, winner) is Ok,
    ensures
        state_wf(game_result_post(s, player0, player1, winner)),
        stake_conserved(s) ==> stake_conserved(game_result_post(s, player0, player1, winner)),
{
    let post: State = game_result_post(s, player0, player1, winner);
    assert forall|a: AccountId| post.auditors.contains_key(a) implies rec_wf(
        #[trigger] post.auditors[a],
    ) by {
        assert(rec_wf(s.auditors[a]));
        assert(rec_wf(s.auditors[player0]));
        assert(rec_wf(s.auditors[player1]));
    }
    if stake_conserved(s) {
        assert forall|a: AccountId| #[trigger] post.reserved[a] == if post.auditors.contains_key(
            a,
        ) {
            post.config.min_auditor_stake
        } else {
            0
        } by {
            assert(s.reserved[a] == if s.auditors.contains_key(a) {
                s.config.min_auditor_stake
            } else {
                0
            });
        }
    }
}

/// Uniqueness: once `sign_up` has succeeded for an account, a second
/// `sign_up` by the same account is rejected as `AlreadySignedUp` for as
/// long as the record exists; only `cancel_account` removes it.
pub proof fn lemma_sign_up_at_most_once(s: State, caller: AccountId, profile_hash: ProfileHash)
    requires
        sign_up_res(s, caller) is Ok,
    ensures
        sign_up_res(sign_up_post(s, caller, profile_hash), caller) == Err::<(), Error>(
            Error::AlreadySignedUp,
        ),
{
}

/// Only cancellation removes a record: every other operation keeps an
/// existing account registered, so a rejected duplicate sign-up stays
/// rejected until `cancel_account` intervenes.
pub proof fn lemma_only_cancel_removes(
    s: State,
    a: AccountId,
    x: AccountId,
    y: AccountId,
    profile_hash: ProfileHash,
    winner: Winner,
)
    requires
        s.auditors.contains_key(a),
    ensures
        sign_up_res(s, x) is Ok ==> sign_up_post(s, x, profile_hash).auditors.contains_key(a),
        update_profile_res(s, x) is Ok ==> update_profile_post(
            s,
            x,
            profile_hash,
        ).auditors.contains_key(a),
        approve_auditor_res(s, x, y) is Ok ==> approve_auditor_post(s, x, y).auditors.contains_key(
            a,
        ),
        game_result_res(s, x, y, winner) is Ok ==> game_result_post(
            s,
            x,
            y,
            winner,
        ).auditors.contains_key(a),
{
}

/// Quorum exactness: in a well-formed state a score is present exactly
/// when the approver list holds the full quorum; a successful approval
/// promotes exactly when it brings the list to the quorum; and once a
/// score is present, further approval attempts by any eligible approver
/// fail `AlreadyAuditor`.
pub proof fn lemma_quorum_exactness(s: State, sender: AccountId, to_approve: AccountId)
    requires
        state_wf(s),
    ensures
        s.auditors.contains_key(to_approve) ==> (s.auditors[to_approve].score is Some
            <==> s.auditors[to_approve].approved_by.len() == QUORUM),
        approve_auditor_res(s, sender, to_approve) is Ok ==> (approve_auditor_post(
            s,
            sender,
            to_approve,
        ).auditors[to_approve].score is Some <==> s.auditors[to_approve].approved_by.len() + 1
            == QUORUM),
        (s.auditors.contains_key(sender) && s.auditors[sender].score is Some
            && s.auditors[sender].score.unwrap() >= s.config.minimal_approver_score
            && s.auditors.contains_key(to_approve) && s.auditors[to_approve].score is Some)
            ==> approve_auditor_res(s, sender, to_approve) == Err::<(), Error>(
            Error::AlreadyAuditor,
        ),
{
    if s.auditors.contains_key(to_approve) {
        assert(rec_wf(s.auditors[to_approve]));
    }
}

/// No double approval: an approval can only succeed while the sender is
/// absent from the candidate's approver list, the list stays free of
/// duplicates afterwards, and a second attempt by the same sender fails
/// `AlreadyApproved`.
pub proof fn lemma_no_double_approval(s: State, sender: AccountId, to_approve: AccountId)
    requires
        state_wf(s),
    ensures
        approve_auditor_res(s, sender, to_approve) is Ok
            ==> !s.auditors[to_approve].approved_by.contains(sender),
        approve_auditor_res(s, sender, to_approve) is Ok ==> rec_wf(
            approve_auditor_post(s, sender, to_approve).auditors[to_approve],
        ),
        (s.auditors.contains_key(sender) && s.auditors[sender].score is Some
            && s.auditors[sender].score.unwrap() >= s.config.minimal_approver_score
            && s.auditors.contains_key(to_approve) && s.auditors[to_approve].score is None
            && s.auditors[to_approve].approved_by.contains(sender)) ==> approve_auditor_res(
            s,
            sender,
            to_approve,
        ) == Err::<(), Error>(Error::AlreadyApproved),
{
    if approve_auditor_res(s, sender, to_approve) is Ok {
        lemma_approve_auditor_preserves(s, sender, to_approve);
    }
}

/// A decided contest moves both scores symmetrically: the winner gains
/// exactly what the loser loses, so the players' combined score is
/// unchanged.
pub proof fn lemma_contest_symmetry(
    s: State,
    player0: AccountId,
    player1: AccountId,
    winner: Winner,
)
    requires
        player0 != player1,
        game_result_res(s, player0, player1, winner) is Ok,
        !(winner is Draw),
    ensures
        ({
            let post: State = game_result_post(s, player0, player1, winner);
            post.auditors[player0].score.unwrap() + post.auditors[player1].score.unwrap()
                == s.auditors[player0].score.unwrap() + s.auditors[player1].score.unwrap()
        }),
{
}

/// Draw no-op: a draw between two approved auditors succeeds, changes no
/// score and no stake, and emits no notification.
pub proof fn lemma_draw_no_op(s: State, player0: AccountId, player1: AccountId)
    requires
        s.auditors.contains_key(player0),
        s.auditors[player0].score is Some,
        s.auditors.contains_key(player1),
        s.auditors[player1].score is Some,
    ensures
        game_result_res(s, player0, player1, Winner::Draw) == Ok::<(), Error>(()),
        game_result_post(s, player0, player1, Winner::Draw) == s,
{
}

/// Promotion is permanent: an account whose score is present keeps a
/// present score under every operation that keeps its record; no edge of
/// the lifecycle resets a score to pending.
pub proof fn lemma_promotion_permanent(
    s: State,
    a: AccountId,
    x: AccountId,
    y: AccountId,
    profile_hash: ProfileHash,
    winner: Winner,
)
    requires
        state_wf(s),
        s.auditors.contains_key(a),
        s.auditors[a].score is Some,
    ensures
        sign_up_res(s, x) is Ok ==> (sign_up_post(s, x, profile_hash).auditors[a].score is Some),
        update_profile_res(s, x) is Ok ==> (update_profile_post(
            s,
            x,
            profile_hash,
        ).auditors[a].score is Some),
        approve_auditor_res(s, x, y) is Ok ==> (approve_auditor_post(
            s,
            x,
            y,
        ).auditors[a].score is Some),
        game_result_res(s, x, y, winner) is Ok ==> (game_result_post(
            s,
            x,
            y,
            winner,
        ).auditors[a].score is Some),
{
}

} // verus!
