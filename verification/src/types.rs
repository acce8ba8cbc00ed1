//! Shared data types: identities, configuration, errors, events, and the
//! auditor record with its bounded approver list.

use vstd::prelude::*;

verus! {

/// Account identity, as the host ledger names accounts.
pub type AccountId = u64;

/// Balance unit of the stake ledger.
pub type Balance = u64;

/// Content-address of an auditor's off-ledger profile document.  The engine
/// treats it as opaque: it is only stored, compared and replaced.
pub type ProfileHash = u64;

/// Number of distinct approvals that promote a pending signup to full
/// auditor status; also the capacity of the approver list.
pub const QUORUM: usize = 3;

/// Outcome of an adjudicated contest between two auditors.
#[derive(Clone, Copy, Debug, PartialEq, Eq, Structural)]
pub enum Winner {
    Player0,
    Player1,
    Draw,
}

/// Rejections of the engine's operations.  A failure never leaves partial
/// state behind: validation fully precedes mutation in every operation.
#[derive(Clone, Copy, Debug, PartialEq, Eq, Structural)]
pub enum Error {
    /// The approver list would exceed its capacity (defensive; unreachable
    /// for well-formed states).
    StorageOverflow,
    /// The caller already holds a record.
    AlreadySignedUp,
    /// The caller's free balance cannot cover the minimum stake.
    InsufficientStake,
    /// No record exists for the account.
    UnknownAuditor,
    /// A record exists but the account has not been approved yet.
    UnapprovedAuditor,
    /// The caller's score is below the minimum required of approvers.
    ReputationTooLow,
    /// The account to approve holds no record.
    UnknownApprovee,
    /// The account to approve is already a full auditor.
    AlreadyAuditor,
    /// The caller already approved this account.
    AlreadyApproved,
    /// The rating update would leave the score's unsigned range.
    UnexpectedEloOverflow,
}

/// Notifications handed to the one-way sink; the engine records them in
/// order of emission.
#[derive(Clone, Copy, Debug, PartialEq, Eq, Structural)]
pub enum Event {
    /// A new auditor signed up.
    SignedUp { who: AccountId },
    /// A contest result was applied.
    GameResult { player0: AccountId, player1: AccountId, winner: Winner },
}

/// Configuration of the engine, fixed at construction.
#[derive(Clone, Copy, Debug, PartialEq, Eq, Structural)]
pub struct Config {
    /// Stake reserved at sign-up and released at cancellation.
    pub min_auditor_stake: Balance,
    /// Score granted when a pending signup reaches the quorum.
    pub initial_auditor_score: u32,
    /// Minimum score an auditor needs to approve others.
    pub minimal_approver_score: u32,
    /// Gain factor of the rating update.
    pub elo_k: u32,
}

/// Ordered list of approvers of a pending signup: at most [`QUORUM`]
/// entries, kept free of duplicates by the engine.
pub struct ApproverList {
    list: Vec<AccountId>,
}

impl View for ApproverList {
    type V = Seq<AccountId>;

    closed spec fn view(&self) -> Seq<AccountId> {
        self.list@
    }
}

impl ApproverList {
    /// The empty approver list.
    pub fn new() -> (r: Self)
        ensures
            r@ == Seq::<AccountId>::empty(),
    {
        ApproverList { list: Vec::new() }
    }

    /// How many approvals have been collected.
    pub fn len(&self) -> (n: usize)
        ensures
            n == self@.len(),
    {
        self.list.len()
    }

    /// The approver at position `i`, in order of arrival.
    pub fn index(&self, i: usize) -> (r: AccountId)
        requires
            i < self@.len(),
        ensures
            r == self@[i as int],
    {
        self.list[i]
    }

    /// Whether `a` already appears in the list.
    pub fn contains(&self, a: AccountId) -> (r: bool)
        ensures
            r == self@.contains(a),
    {
        let mut i: usize = 0;
        while i < self.list.len()
            invariant
                i <= self.list.len(),
                forall|j: int| 0 <= j < i ==> self.list@[j] != a,
            decreases self.list.len() - i,
        {
            if self.list[i] == a {
                assert(self@[i as int] == a);
                return true;
            }
            i += 1;
        }
        false
    }

    /// Append an approver; rejected once the list is at capacity.
    pub fn try_push(&mut self, a: AccountId) -> (r: Result<(), Error>)
        ensures
            old(self)@.len() < QUORUM ==> r is Ok && final(self)@ == old(self)@.push(a),
            old(self)@.len() >= QUORUM ==> r == Err::<(), Error>(Error::StorageOverflow)
                && final(self)@ == old(self)@,
    {
        if self.list.len() < QUORUM {
            self.list.push(a);
            Ok(())
        } else {
            Err(Error::StorageOverflow)
        }
    }
}

/// Mathematical model of an auditor's record.
#[verifier::ext_equal]
pub ghost struct AuditorRec {
    /// `None` while the signup is pending; the current rating once approved.
    pub score: Option<u32>,
    /// Content-address of the auditor's profile document.
    pub profile_hash: ProfileHash,
    /// Accounts that have vouched for this signup, in order of arrival.
    pub approved_by: Seq<AccountId>,
}

/// Data associated to one registered auditor.
///
/// `score` doubles as the approval status: pending signups carry `None`,
/// approved auditors carry their current rating.
pub struct AuditorData {
    /// `None` while the signup is pending; the current rating once approved.
    pub score: Option<u32>,
    /// Content-address of the auditor's profile document.
    pub profile_hash: ProfileHash,
    /// Approvals collected so far.
    pub approved_by: ApproverList,
}

impl View for AuditorData {
    type V = AuditorRec;

    open spec fn view(&self) -> AuditorRec {
        AuditorRec { score: self.score, profile_hash: self.profile_hash, approved_by: self.approved_by@ }
    }
}

/// A record as every operation keeps it: the approver list never exceeds
/// the quorum, never names the same approver twice, and the score is
/// present exactly when the quorum has been reached.
pub open spec fn rec_wf(r: AuditorRec) -> bool {
    &&& r.approved_by.len() <= QUORUM
    &&& forall|i: int, j: int|
        0 <= i < j < r.approved_by.len() ==> r.approved_by[i] != r.approved_by[j]
    &&& (r.score is None <==> r.approved_by.len() < QUORUM)
}

} // verus!
