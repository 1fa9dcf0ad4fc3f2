//! The mathematical model of a market's ledger.
//!
//! A market is, for the purposes of every contract in this crate, a value of
//! [`MarketState`]: the outcome list, one share count per outcome, and the
//! winning outcome once there is one. Each operation of the executable market
//! is described here as a function on that value.

use vstd::prelude::*;
use crate::market::LmsrError;
use crate::outcome::valid_outcomes;

verus! {

/// Share counts as natural numbers.
pub open spec fn counts(shares: Seq<u64>) -> Seq<nat> {
    shares.map_values(|q: u64| q as nat)
}

/// The share counts on both sides of a trade.
pub struct TradeView {
    /// The count of every outcome before the trade.
    pub before: Seq<nat>,
    /// The count of every outcome after it.
    pub after: Seq<nat>,
}

impl TradeView {
    /// The same trade run backwards.
    pub open spec fn reversed(self) -> TradeView {
        TradeView { before: self.after, after: self.before }
    }
}

/// The ledger of a market over outcomes of type `T`.
pub struct MarketState<T> {
    /// The outcomes, in index order.
    pub outcomes: Seq<T>,
    /// `shares[i]` is what has been bought of outcome `i`, less what has been
    /// sold of it.
    pub shares: Seq<nat>,
    /// The winning outcome, once the market is resolved.
    pub resolved: Option<T>,
}

impl<T> MarketState<T> {
    /// Every share count is one that the executable market can keep.
    pub open spec fn fits(self) -> bool {
        forall|i: int| 0 <= i < self.shares.len() ==> #[trigger] self.shares[i] <= u64::MAX
    }

    /// The outcomes form a valid outcome set, every outcome has its share
    /// count, and a winner is one of the outcomes.
    pub open spec fn valid(self) -> bool {
        &&& valid_outcomes(self.outcomes)
        &&& self.shares.len() == self.outcomes.len()
        &&& (self.resolved matches Some(winner) ==> self.outcomes.contains(winner))
    }

    /// The market as it is made: no shares out, not resolved.
    pub open spec fn fresh(outcomes: Seq<T>) -> Self {
        MarketState {
            outcomes,
            shares: Seq::new(outcomes.len(), |i: int| 0nat),
            resolved: None,
        }
    }

    /// The index under which the market keeps `outcome`.
    pub open spec fn index_of(self, outcome: T) -> int {
        self.outcomes.index_of(outcome)
    }

    /// The share count of `outcome`.
    pub open spec fn held(self, outcome: T) -> nat {
        self.shares[self.index_of(outcome)]
    }

    /// This market with the share count of `outcome` set to `count`.
    pub open spec fn with_held(self, outcome: T, count: nat) -> Self {
        MarketState { shares: self.shares.update(self.index_of(outcome), count), ..self }
    }

    /// What buying `amount` of `outcome` returns: the trade, unless the
    /// market is resolved.
    pub open spec fn buy_result(self, outcome: T, amount: nat) -> Result<TradeView, LmsrError> {
        if self.resolved is Some {
            Err(LmsrError::Resolved)
        } else {
            Ok(
                TradeView {
                    before: self.shares,
                    after: self.with_held(outcome, self.held(outcome) + amount).shares,
                },
            )
        }
    }

    /// The market after buying `amount` of `outcome`.
    pub open spec fn after_buy(self, outcome: T, amount: nat) -> Self {
        match self.buy_result(outcome, amount) {
            Ok(trade) => MarketState { shares: trade.after, ..self },
            Err(_) => self,
        }
    }

    /// What selling `amount` of `outcome` returns, where `funded` tells
    /// whether the funds that the market has collected cover the proceeds.
    ///
    /// The checks come in this order: a resolved market trades nothing; no
    /// more can be sold than is held; the proceeds must be covered.
    pub open spec fn sell_result(self, outcome: T, amount: nat, funded: bool) -> Result<
        TradeView,
        LmsrError,
    > {
        if self.resolved is Some {
            Err(LmsrError::Resolved)
        } else if amount > self.held(outcome) {
            Err(LmsrError::InsufficientShares)
        } else if !funded {
            Err(LmsrError::NegativeMarketCapitalization)
        } else {
            Ok(
                TradeView {
                    before: self.shares,
                    after: self.with_held(outcome, (self.held(outcome) - amount) as nat).shares,
                },
            )
        }
    }

    /// The market after selling `amount` of `outcome`.
    pub open spec fn after_sell(self, outcome: T, amount: nat, funded: bool) -> Self {
        match self.sell_result(outcome, amount, funded) {
            Ok(trade) => MarketState { shares: trade.after, ..self },
            Err(_) => self,
        }
    }

    /// What declaring a winner returns: nothing, unless the market already
    /// has one. A winner is declared once and for all.
    pub open spec fn resolve_result(self) -> Result<(), LmsrError> {
        if self.resolved is Some {
            Err(LmsrError::Resolved)
        } else {
            Ok(())
        }
    }

    /// The market after `winner` is declared: `winner` wins where there was
    /// no winner yet, and the market is as before where there was one.
    pub open spec fn after_resolve(self, winner: T) -> Self {
        match self.resolve_result() {
            Ok(_) => MarketState { resolved: Some(winner), ..self },
            Err(_) => self,
        }
    }

    /// The number of shares among which a payout on `outcome` is divided;
    /// there is none to divide among where nothing is held.
    pub open spec fn payout_shares(self, outcome: T) -> Result<nat, LmsrError> {
        if self.held(outcome) == 0 {
            Err(LmsrError::InsufficientShares)
        } else {
            Ok(self.held(outcome))
        }
    }
}

} // verus!
