//! An in-memory ballot ledger.
//!
//! A [`Voting`] registry owns ballots ([`Vote`]) under increasing identifiers.
//! Each ballot keeps a roster of enrolled identities with their remaining
//! casting rights, a tally per option text, and an open flag that can only go
//! from open to closed. Identities are Solana public keys; whoever calls the
//! registry hands in the list of participating identities, the first of which
//! acts as the caller.
//!
//! Every operation is specified against a mathematical model
//! ([`BallotView`], [`RegistryView`]): a refusal function says when and why a
//! call fails, and a successor function says what a successful call leaves
//! behind.

pub mod ballot;
pub mod error;
pub mod history;
pub mod keys;
pub mod laws;
pub mod model;
pub mod registry;
pub mod roster;
pub mod totals;

pub use ballot::Vote;
pub use error::VotingError;
pub use model::BallotView;
pub use registry::{RegistryView, Voting};
pub use roster::{VoterEntry, VoterInfo};
