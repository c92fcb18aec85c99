//! A peer-rating ledger: registered identities rate one another on a
//! half-star scale, each identity carries an aggregate reputation, and an
//! administrator-controlled policy throttles how often one identity may
//! re-rate the same counterpart.

pub mod engine;
pub mod laws;
pub mod rating;
pub mod table;
pub mod types;

pub use engine::{Failure, LedgerModel, NoseDive, NoseDiveError, NANOS_PER_SEC};
pub use rating::validate_rating;
pub use types::{ContractPatch, PatchSpec, RatingTimestamps, UserState, VoteInterval, Votes};
