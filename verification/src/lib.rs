//! A governance-and-treasury state machine.
//!
//! Members submit proposals ("ballots") backed by a refundable deposit, an
//! administrator resolves each ballot by vote, and a portion of deposited
//! funds is burned, refunded, or streamed to stakeholders on a fixed weekly
//! schedule.
//!
//! The hosting ledger's services are kept outside the library and modelled
//! explicitly: the persistent storage backend becomes the [`DAOContract`]
//! state struct itself, the authorization oracle becomes the set of signers
//! carried by a [`CallContext`], the clock becomes the context's timestamp,
//! and the fungible-token service becomes the amounts that the operations
//! report back to their caller, who is responsible for moving the tokens.
//! Each public operation is atomic: it either succeeds, or returns an error
//! and leaves the state exactly as it was.

use vstd::prelude::*;

pub mod types;
pub mod math;
pub mod context;
pub mod balances;
pub mod model;
pub mod contract;
pub mod laws;

pub use types::{Address, Ballot, BallotCategory, BallotInitParams, BallotStatus, ContractConfig,
    DepositSchedule, Error};
pub use context::CallContext;
pub use contract::DAOContract;

verus! {

/// Percentage denominator for the weekly distribution shares: 10000 is 100%.
pub const PERCENTAGE_FACTOR: i128 = 10000;

/// Operators receive 0.24% of the treasury per weekly distribution.
pub const OPERATORS_SHARE: i128 = 24;

/// The developer organization receives 0.06% per weekly distribution.
pub const DEVELOPERS_SHARE: i128 = 6;

/// Minimum gap between two distributions: one week, in seconds.
pub const UNLOCK_PERIOD: u32 = 604800;

/// Voting window of a ballot: two weeks, in seconds.
pub const BALLOT_DURATION: u32 = 604800 * 2;

/// Storage rental window of a freshly created ballot, in ledger sequence
/// numbers (an external storage concern; kept for the host adapter).
pub const BALLOT_RENTAL_PERIOD: u32 = 17280 * 30 * 2;

} // verus!
