//! The executable engine: registry, stake ledger model and notification
//! log in one value, with one method per operation.
//!
//! Every method's contract is stated against the abstract model of
//! [`crate::state`]: the method returns exactly `..._res` of the state it
//! was called in, and moves the state to `..._post` exactly when it
//! succeeds.  Well-formedness is preserved by every method, and so is
//! stake conservation.

use std::collections::HashMap;

use vstd::prelude::*;

use crate::elo::EloRank;
use crate::state::State;
use crate::state::approve_auditor_post;
use crate::state::approve_auditor_res;
use crate::state::cancel_account_post;
use crate::state::cancel_account_res;
use crate::state::game_result_post;
use crate::state::game_result_res;
use crate::state::init_state;
use crate::state::lemma_approve_auditor_preserves;
use crate::state::lemma_cancel_account_preserves;
use crate::state::lemma_game_result_preserves;
use crate::state::lemma_init_state_ok;
use crate::state::lemma_sign_up_preserves;
use crate::state::lemma_update_profile_preserves;
use crate::state::sign_up_post;
use crate::state::sign_up_res;
use crate::state::stake_conserved;
use crate::state::state_wf;
use crate::state::update_profile_post;
use crate::state::update_profile_res;
use crate::types::AccountId;
use crate::types::ApproverList;
use crate::types::AuditorData;
use crate::types::AuditorRec;
use crate::types::Balance;
use crate::types::Config;
use crate::types::Error;
use crate::types::Event;
use crate::types::ProfileHash;
use crate::types::QUORUM;
use crate::types::Winner;
use crate::types::rec_wf;

verus! {

broadcast use vstd::std_specs::hash::group_hash_axioms;

/// The registry's value map, lifted to auditor record models.
pub open spec fn recs_of(m: Map<AccountId, AuditorData>) -> Map<AccountId, AuditorRec> {
    m.map_values(|d: AuditorData| d@)
}

/// A balance map read as a total function: zero where never touched.
pub open spec fn balances_of(m: Map<AccountId, Balance>) -> Map<AccountId, Balance> {
    Map::new(|a: AccountId| true, |a: AccountId| if m.contains_key(a) { m[a] } else { 0 })
}

/// Free or reserved balance of `a` in one of the ledger's maps.
fn balance_of(m: &HashMap<AccountId, Balance>, a: AccountId) -> (r: Balance)
    ensures
        r == balances_of(m@)[a],
{
    match m.get(&a) {
        Some(b) => *b,
        None => 0,
    }
}

/// The auditor lifecycle, approval-quorum and reputation-update engine.
///
/// It owns the registry of auditor records, a model of the stake ledger
/// (free and reserved balance per account), and the log of emitted
/// notifications.  All operations are synchronous and transactional: a
/// failed operation leaves the state exactly as it was.
pub struct Pallet {
    config: Config,
    auditors: HashMap<AccountId, AuditorData>,
    free: HashMap<AccountId, Balance>,
    reserved: HashMap<AccountId, Balance>,
    events: Vec<Event>,
}

impl Pallet {
    /// The abstract state this engine is in.
    pub closed spec fn st(&self) -> State {
        State {
            config: self.config,
            auditors: recs_of(self.auditors@),
            free: balances_of(self.free@),
            reserved: balances_of(self.reserved@),
            events: self.events@,
        }
    }

    /// The engine's invariant: its abstract state is well formed.
    pub closed spec fn wf(&self) -> bool {
        state_wf(self.st())
    }

    /// A fresh engine: no records, no balances, no events.
    pub fn new(config: Config) -> (r: Pallet)
        ensures
            r.wf(),
            stake_conserved(r.st()),
            r.st() == init_state(config),
    {
        let p = Pallet {
            config,
            auditors: HashMap::new(),
            free: HashMap::new(),
            reserved: HashMap::new(),
            events: Vec::new(),
        };
        proof {
            assert(p.st() =~~= init_state(config));
            lemma_init_state_ok(config);
        }
        p
    }

    /// The record held for `who`, if any.
    pub fn auditor_score(&self, who: AccountId) -> (r: Option<&AuditorData>)
        ensures
            match r {
                Some(d) => self.st().auditors.contains_key(who) && d@ == self.st().auditors[who],
                None => !self.st().auditors.contains_key(who),
            },
    {
        self.auditors.get(&who)
    }

    /// The free balance of `who` in the ledger model.
    pub fn free_balance(&self, who: AccountId) -> (r: Balance)
        ensures
            r == self.st().free[who],
    {
        balance_of(&self.free, who)
    }

    /// The balance reserved as stake for `who`.
    pub fn reserved_balance(&self, who: AccountId) -> (r: Balance)
        ensures
            r == self.st().reserved[who],
    {
        balance_of(&self.reserved, who)
    }

    /// The notifications emitted so far, in order.
    pub fn events(&self) -> (r: &Vec<Event>)
        ensures
            r@ == self.st().events,
    {
        &self.events
    }

    /// The configuration the engine was built with.
    pub fn config(&self) -> (r: Config)
        ensures
            r == self.st().config,
    {
        self.config
    }

    /// Set an account's free balance, as the host ledger's genesis does
    /// when it endows accounts.  Records, reserved stake and events are
    /// untouched.
    pub fn set_free_balance(&mut self, who: AccountId, amount: Balance)
        requires
            old(self).wf(),
            amount + old(self).st().reserved[who] <= Balance::MAX,
        ensures
            final(self).wf(),
            final(self).st() == (State {
                free: old(self).st().free.insert(who, amount),
                ..old(self).st()
            }),
            stake_conserved(old(self).st()) ==> stake_conserved(final(self).st()),
    {
        self.free.insert(who, amount);
        proof {
            assert(self.st() =~~= (State {
                free: old(self).st().free.insert(who, amount),
                ..old(self).st()
            }));
        }
    }

    /// Sign up the caller as a pending auditor: fails `AlreadySignedUp` if
    /// a record already exists, reserves the configured minimum stake
    /// (failing `InsufficientStake` if the free balance cannot cover it),
    /// creates a pending record with the given profile hash, and emits a
    /// sign-up notification.
    pub fn sign_up(&mut self, caller: AccountId, profile_hash: ProfileHash) -> (r: Result<
        (),
        Error,
    >)
        requires
            old(self).wf(),
        ensures
            final(self).wf(),
            r == sign_up_res(old(self).st(), caller),
            final(self).st() == (if r is Ok {
                sign_up_post(old(self).st(), caller, profile_hash)
            } else {
                old(self).st()
            }),
            stake_conserved(old(self).st()) ==> stake_conserved(final(self).st()),
    {
        if self.auditors.contains_key(&caller) {
            return Err(Error::AlreadySignedUp);
        }
        let stake: Balance = self.config.min_auditor_stake;
        let bal: Balance = balance_of(&self.free, caller);
        if bal < stake {
            return Err(Error::InsufficientStake);
        }
        let reserved: Balance = balance_of(&self.reserved, caller);
        proof {
            assert(old(self).st().free[caller] + old(self).st().reserved[caller] <= Balance::MAX);
        }
        self.free.insert(caller, bal - stake);
        self.reserved.insert(caller, reserved + stake);
        self.auditors.insert(
            caller,
            AuditorData { score: None, profile_hash, approved_by: ApproverList::new() },
        );
        self.events.push(Event::SignedUp { who: caller });
        proof {
            lemma_sign_up_preserves(old(self).st(), caller, profile_hash);
            assert(self.st() =~~= sign_up_post(old(self).st(), caller, profile_hash));
        }
        Ok(())
    }

    /// Replace the caller's profile hash in place; fails `UnknownAuditor`
    /// if no record exists.  Score and approvals are untouched.
    pub fn update_profile(&mut self, caller: AccountId, profile_hash: ProfileHash) -> (r: Result<
        (),
        Error,
    >)
        requires
            old(self).wf(),
        ensures
            final(self).wf(),
            r == update_profile_res(old(self).st(), caller),
            final(self).st() == (if r is Ok {
                update_profile_post(old(self).st(), caller, profile_hash)
            } else {
                old(self).st()
            }),
            stake_conserved(old(self).st()) ==> stake_conserved(final(self).st()),
    {
        let mut data: AuditorData = match self.auditors.remove(&caller) {
            None => {
                proof {
                    assert(self.st() =~~= old(self).st());
                }
                return Err(Error::UnknownAuditor);
            },
            Some(d) => d,
        };
        data.profile_hash = profile_hash;
        self.auditors.insert(caller, data);
        proof {
            lemma_update_profile_preserves(old(self).st(), caller, profile_hash);
            assert(self.st() =~~= update_profile_post(old(self).st(), caller, profile_hash));
        }
        Ok(())
    }

    /// Cancel the caller's registration, pending or approved: fails
    /// `UnknownAuditor` if no record exists; otherwise the reserved stake
    /// returns to the free balance and the record is deleted.
    pub fn cancel_account(&mut self, caller: AccountId) -> (r: Result<(), Error>)
        requires
            old(self).wf(),
        ensures
            final(self).wf(),
            r == cancel_account_res(old(self).st(), caller),
            final(self).st() == (if r is Ok {
                cancel_account_post(old(self).st(), caller)
            } else {
                old(self).st()
            }),
            stake_conserved(old(self).st()) ==> stake_conserved(final(self).st()),
    {
        if !self.auditors.contains_key(&caller) {
            return Err(Error::UnknownAuditor);
        }
        let stake: Balance = self.config.min_auditor_stake;
        let reserved: Balance = balance_of(&self.reserved, caller);
        let freed: Balance = if stake <= reserved {
            stake
        } else {
            reserved
        };
        let bal: Balance = balance_of(&self.free, caller);
        proof {
            assert(old(self).st().free[caller] + old(self).st().reserved[caller] <= Balance::MAX);
        }
        self.free.insert(caller, bal + freed);
        self.reserved.insert(caller, reserved - freed);
        self.auditors.remove(&caller);
        proof {
            lemma_cancel_account_preserves(old(self).st(), caller);
            assert(self.st() =~~= cancel_account_post(old(self).st(), caller));
        }
        Ok(())
    }

    /// Record the sender's approval of a pending signup.  The sender must
    /// be a registered, approved auditor whose score reaches the
    /// configured approver minimum; the candidate must be registered,
    /// still pending, and not already approved by the sender.  The instant
    /// the approver list reaches the quorum, the candidate's score is set
    /// to the configured initial score — exactly once, atomically with the
    /// final approval.
    pub fn approve_auditor(&mut self, sender: AccountId, to_approve: AccountId) -> (r: Result<
        (),
        Error,
    >)
        requires
            old(self).wf(),
        ensures
            final(self).wf(),
            r == approve_auditor_res(old(self).st(), sender, to_approve),
            final(self).st() == (if r is Ok {
                approve_auditor_post(old(self).st(), sender, to_approve)
            } else {
                old(self).st()
            }),
            stake_conserved(old(self).st()) ==> stake_conserved(final(self).st()),
    {
        let sender_score: u32 = match self.auditors.get(&sender) {
            None => {
                return Err(Error::UnknownAuditor);
            },
            Some(d) => match d.score {
                None => {
                    return Err(Error::UnapprovedAuditor);
                },
                Some(sc) => sc,
            },
        };
        if sender_score < self.config.minimal_approver_score {
            return Err(Error::ReputationTooLow);
        }
        let mut data: AuditorData = match self.auditors.remove(&to_approve) {
            None => {
                proof {
                    assert(self.st() =~~= old(self).st());
                }
                return Err(Error::UnknownApprovee);
            },
            Some(d) => d,
        };
        if data.score.is_some() {
            self.auditors.insert(to_approve, data);
            proof {
                assert(self.st() =~~= old(self).st());
            }
            return Err(Error::AlreadyAuditor);
        }
        if data.approved_by.contains(sender) {
            self.auditors.insert(to_approve, data);
            proof {
                assert(self.st() =~~= old(self).st());
            }
            return Err(Error::AlreadyApproved);
        }
        match data.approved_by.try_push(sender) {
            Err(_) => {
                self.auditors.insert(to_approve, data);
                proof {
                    assert(self.st() =~~= old(self).st());
                }
                return Err(Error::StorageOverflow);
            },
            Ok(()) => {},
        }
        if data.approved_by.len() == QUORUM {
            data.score = Some(self.config.initial_auditor_score);
        }
        self.auditors.insert(to_approve, data);
        proof {
            lemma_approve_auditor_preserves(old(self).st(), sender, to_approve);
            assert(self.st() =~~= approve_auditor_post(old(self).st(), sender, to_approve));
        }
        Ok(())
    }

    /// Record the result of a contest.  The host authenticates the
    /// privileged caller before this is reached; the engine itself only
    /// applies the result.
    pub fn game_result(&mut self, player0: AccountId, player1: AccountId, winner: Winner) -> (r:
        Result<(), Error>)
        requires
            old(self).wf(),
        ensures
            final(self).wf(),
            r == game_result_res(old(self).st(), player0, player1, winner),
            final(self).st() == (if r is Ok {
                game_result_post(old(self).st(), player0, player1, winner)
            } else {
                old(self).st()
            }),
            stake_conserved(old(self).st()) ==> stake_conserved(final(self).st()),
    {
        self.apply_result(player0, player1, winner)
    }

    /// Apply a contest result: both players must be registered, approved
    /// auditors.  A draw succeeds without mutating anything and without a
    /// notification.  Otherwise both scores move by the same Elo delta —
    /// the winner up, the loser down — written back in player order, and a
    /// contest notification is emitted.  Fails `UnexpectedEloOverflow` if
    /// a new score would leave the unsigned range.
    pub fn apply_result(&mut self, player0: AccountId, player1: AccountId, winner: Winner) -> (r:
        Result<(), Error>)
        requires
            old(self).wf(),
        ensures
            final(self).wf(),
            r == game_result_res(old(self).st(), player0, player1, winner),
            final(self).st() == (if r is Ok {
                game_result_post(old(self).st(), player0, player1, winner)
            } else {
                old(self).st()
            }),
            stake_conserved(old(self).st()) ==> stake_conserved(final(self).st()),
    {
        let score0: u32 = match self.auditors.get(&player0) {
            None => {
                return Err(Error::UnknownAuditor);
            },
            Some(d) => match d.score {
                None => {
                    return Err(Error::UnapprovedAuditor);
                },
                Some(sc) => sc,
            },
        };
        let score1: u32 = match self.auditors.get(&player1) {
            None => {
                return Err(Error::UnknownAuditor);
            },
            Some(d) => match d.score {
                None => {
                    return Err(Error::UnapprovedAuditor);
                },
                Some(sc) => sc,
            },
        };
        let (winner_score, looser_score): (u32, u32) = match winner {
            Winner::Player0 => (score0, score1),
            Winner::Player1 => (score1, score0),
            Winner::Draw => {
                return Ok(());
            },
        };
        let elo = EloRank { k: self.config.elo_k };
        let (winner_new, looser_new): (u32, u32) = match elo.calculate(winner_score, looser_score) {
            Ok(scores) => scores,
            Err(_) => {
                return Err(Error::UnexpectedEloOverflow);
            },
        };
        let (new0, new1): (u32, u32) = match winner {
            Winner::Player0 => (winner_new, looser_new),
            Winner::Player1 => (looser_new, winner_new),
            Winner::Draw => (winner_new, looser_new),
        };
        let mut d0: AuditorData = self.auditors.remove(&player0).unwrap();
        d0.score = Some(new0);
        self.auditors.insert(player0, d0);
        let mut d1: AuditorData = self.auditors.remove(&player1).unwrap();
        d1.score = Some(new1);
        self.auditors.insert(player1, d1);
        self.events.push(Event::GameResult { player0, player1, winner });
        proof {
            lemma_game_result_preserves(old(self).st(), player0, player1, winner);
            assert(self.st() =~~= game_result_post(old(self).st(), player0, player1, winner));
        }
        Ok(())
    }
}

/// The record models of a sequence of genesis entries.
pub open spec fn entry_views(entries: Seq<(AccountId, AuditorData)>) -> Seq<(AccountId, AuditorRec)> {
    entries.map_values(|p: (AccountId, AuditorData)| (p.0, p.1@))
}

/// Effect of loading genesis entries, first to last: each entry is
/// inserted, later entries overwriting earlier ones with the same key.
pub open spec fn apply_genesis(
    m: Map<AccountId, AuditorRec>,
    entries: Seq<(AccountId, AuditorRec)>,
) -> Map<AccountId, AuditorRec>
    decreases entries.len(),
{
    if entries.len() == 0 {
        m
    } else {
        apply_genesis(m.insert(entries[0].0, entries[0].1), entries.drop_first())
    }
}

/// A pre-seeded registry, loaded once at bootstrap.  Seeding happens
/// outside the operations' lifecycle: no stake is reserved for seeded
/// records, exactly as the host loads a genesis state.
pub struct GenesisConfig {
    /// The records to load, in order.
    pub auditor_map: Vec<(AccountId, AuditorData)>,
}

impl View for GenesisConfig {
    type V = Seq<(AccountId, AuditorRec)>;

    open spec fn view(&self) -> Seq<(AccountId, AuditorRec)> {
        entry_views(self.auditor_map@)
    }
}

impl Default for GenesisConfig {
    /// An empty genesis: nothing pre-seeded.
    fn default() -> (r: Self)
        ensures
            r@ == Seq::<(AccountId, AuditorRec)>::empty(),
    {
        let r = GenesisConfig { auditor_map: Vec::new() };
        proof {
            assert(r@ =~= Seq::<(AccountId, AuditorRec)>::empty());
        }
        r
    }
}

impl GenesisConfig {
    /// Load the pre-seeded records into the engine, first to last.  Every
    /// seeded record must be well formed; balances and events are
    /// untouched.
    pub fn build(self, pallet: &mut Pallet)
        requires
            old(pallet).wf(),
            forall|i: int| 0 <= i < self@.len() ==> rec_wf(#[trigger] self@[i].1),
        ensures
            final(pallet).wf(),
            final(pallet).st() == (State {
                auditors: apply_genesis(old(pallet).st().auditors, self@),
                ..old(pallet).st()
            }),
    {
        let ghost orig: Seq<(AccountId, AuditorRec)> = self@;
        let mut entries: Vec<(AccountId, AuditorData)> = self.auditor_map;
        proof {
            assert forall|i: int| 0 <= i < entries@.len() implies rec_wf(
                #[trigger] entries@[i].1@,
            ) by {
                assert(orig[i] == (entries@[i].0, entries@[i].1@));
                assert(rec_wf(orig[i].1));
            }
        }
        while entries.len() > 0
            invariant
                pallet.wf(),
                forall|i: int| 0 <= i < entries@.len() ==> rec_wf(#[trigger] entries@[i].1@),
                apply_genesis(pallet.st().auditors, entry_views(entries@)) == apply_genesis(
                    old(pallet).st().auditors,
                    orig,
                ),
                pallet.st().config == old(pallet).st().config,
                pallet.st().free == old(pallet).st().free,
                pallet.st().reserved == old(pallet).st().reserved,
                pallet.st().events == old(pallet).st().events,
            decreases entries.len(),
        {
            let ghost before: Seq<(AccountId, AuditorData)> = entries@;
            let ghost st_before: State = pallet.st();
            let (a, d) = entries.remove(0);
            proof {
                assert(entry_views(before)[0] == (a, d@));
                assert(entry_views(entries@) =~= entry_views(before).drop_first());
            }
            pallet.auditors.insert(a, d);
            proof {
                assert(pallet.st().auditors =~= st_before.auditors.insert(a, d@));
                assert(rec_wf(d@));
                assert forall|x: AccountId| pallet.st().auditors.contains_key(x) implies rec_wf(
                    #[trigger] pallet.st().auditors[x],
                ) by {
                    if x != a {
                        assert(rec_wf(st_before.auditors[x]));
                    }
                }
            }
        }
        proof {
            assert(entry_views(entries@) =~= Seq::<(AccountId, AuditorRec)>::empty());
            assert(pallet.st() =~~= (State {
                auditors: apply_genesis(old(pallet).st().auditors, orig),
                ..old(pallet).st()
            }));
        }
    }
}

/// Free balance each account starts with in the test environment.
pub open spec fn test_balance(a: AccountId) -> Balance {
    if a == 1 || a == 2 || a == 3 {
        10
    } else if a == 10 || a == 20 || a == 30 {
        100
    } else {
        0
    }
}

/// The state [`new_test_ext`] starts from: an empty registry over a
/// pre-funded ledger.
pub open spec fn test_ext_state() -> State {
    State {
        config: Config {
            min_auditor_stake: 10,
            initial_auditor_score: 1000,
            minimal_approver_score: 100,
            elo_k: 32,
        },
        auditors: Map::empty(),
        free: Map::new(|a: AccountId| true, |a: AccountId| test_balance(a)),
        reserved: Map::new(|a: AccountId| true, |a: AccountId| 0),
        events: Seq::empty(),
    }
}

/// An engine over a pre-funded ledger, convenient for tests: accounts 1
/// to 3 hold 10 — just the minimum stake — and accounts 10, 20 and 30
/// hold 100.
pub fn new_test_ext() -> (r: Pallet)
    ensures
        r.wf(),
        stake_conserved(r.st()),
        r.st() == test_ext_state(),
{
    let mut p = Pallet::new(
        Config {
            min_auditor_stake: 10,
            initial_auditor_score: 1000,
            minimal_approver_score: 100,
            elo_k: 32,
        },
    );
    p.set_free_balance(1, 10);
    p.set_free_balance(2, 10);
    p.set_free_balance(3, 10);
    p.set_free_balance(10, 100);
    p.set_free_balance(20, 100);
    p.set_free_balance(30, 100);
    proof {
        assert(p.st() =~~= test_ext_state());
    }
    p
}

} // verus!
