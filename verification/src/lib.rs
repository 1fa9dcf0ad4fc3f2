//! Share ledger of a logarithmic market scoring rule (LMSR) prediction market.
//!
//! The crate keeps, for a fixed set of mutually exclusive outcomes, how many
//! shares of each outcome are out and whether the market has been resolved,
//! and decides which trades are admitted. Every operation is stated over the
//! mathematical model in [`state`] and proved against it.

pub mod laws;
pub mod market;
pub mod outcome;
pub mod snapshot;
pub mod state;

pub use market::{LmsrError, LmsrMarket, Trade};
pub use outcome::{BinaryOutcome, OutcomeSet, OutcomeSetError};
pub use snapshot::{LmsrMarketDTO, SnapshotError};
