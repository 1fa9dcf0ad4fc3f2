//! Snapshots: a market's ledger as a flat record, and back.
//!
//! A record carries no outcome list. It is read back against the outcome set
//! of the market it was taken from, and refused where it does not fit it.

use vstd::prelude::*;
use crate::state::{counts, MarketState};

verus! {

/// The stored form of a market's ledger.
pub struct LmsrMarketDTO<T> {
    /// The share count of every outcome, in index order.
    pub shares: Vec<u64>,
    /// The winning outcome, if the market was resolved.
    pub resolved: Option<T>,
}

/// Why a record was refused.
#[derive(Debug, Clone, Copy, PartialEq, Eq, Structural)]
pub enum SnapshotError {
    /// The record does not hold one share count per outcome.
    ShareCountMismatch,
    /// The record names a winner that is not among the outcomes.
    UnknownOutcome,
}

impl<T> LmsrMarketDTO<T> {
    /// The ledger that the record stands for over `outcomes`.
    pub open spec fn state(self, outcomes: Seq<T>) -> MarketState<T> {
        MarketState { outcomes, shares: counts(self.shares@), resolved: self.resolved }
    }

    /// What reading the record against `outcomes` gives: the ledger that it
    /// stands for, unless it does not hold one share count per outcome or
    /// names a winner that is not among the outcomes. The length is looked at
    /// first.
    pub open spec fn read(self, outcomes: Seq<T>) -> Result<MarketState<T>, SnapshotError> {
        if self.shares@.len() != outcomes.len() {
            Err(SnapshotError::ShareCountMismatch)
        } else if self.resolved matches Some(winner) && !outcomes.contains(winner) {
            Err(SnapshotError::UnknownOutcome)
        } else {
            Ok(self.state(outcomes))
        }
    }
}

} // verus!
