//! Auditor lifecycle, approval-quorum and reputation-update engine.
//!
//! The engine decides who may act as an auditor and how an auditor's
//! standing evolves: an account signs up by staking collateral, gathers a
//! quorum of peer approvals, and thereafter carries a reputation score that
//! is updated after adjudicated pairwise contests.  The host ledger's
//! concerns (origin authentication, consensus, persistent storage) stay
//! outside; the engine keeps its registry, a model of the stake ledger and
//! the emitted notifications as one explicit state value.

pub mod elo;
pub mod pallet;
pub mod state;
pub mod types;

pub use elo::EloError;
pub use elo::EloRank;
pub use pallet::GenesisConfig;
pub use pallet::Pallet;
pub use pallet::new_test_ext;
pub use types::AccountId;
pub use types::ApproverList;
pub use types::AuditorData;
pub use types::Balance;
pub use types::Config;
pub use types::Error;
pub use types::Event;
pub use types::ProfileHash;
pub use types::Winner;
