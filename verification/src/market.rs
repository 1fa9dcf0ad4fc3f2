//! The executable market: share counts, trades and resolution.
//!
//! The market keeps the integer side of a logarithmic market scoring rule
//! (LMSR) market maker: how many shares of each outcome are out, and whether
//! a winner has been declared. It decides which trades are admitted and
//! reports the share counts on both sides of each admitted trade. What a
//! trade costs is a function of those counts and of a liquidity parameter;
//! computing it, and keeping the funds collected, is left to the caller.

use vstd::prelude::*;
use vstd::laws_eq::obeys_concrete_eq;
use vstd::std_specs::convert::{FromSpec, FromSpecImpl};
use crate::outcome::OutcomeSet;
use crate::snapshot::{LmsrMarketDTO, SnapshotError};
use crate::state::{counts, MarketState, TradeView};

verus! {

/// Why a market refused an operation.
#[derive(Debug, Clone, Copy, PartialEq, Eq, Structural)]
pub enum LmsrError {
    /// More was to be sold than is held of the outcome, or a payout was asked
    /// on an outcome of which nothing is held.
    InsufficientShares,
    /// A trade, or another resolution, was attempted after the market had
    /// been resolved.
    Resolved,
    /// The proceeds of a sale would exceed the funds that the market has
    /// collected.
    NegativeMarketCapitalization,
}

/// The share counts on both sides of an admitted trade.
#[derive(Debug, PartialEq, Eq)]
pub struct Trade {
    /// The count of every outcome before the trade, in index order.
    pub before: Vec<u64>,
    /// The count of every outcome after it.
    pub after: Vec<u64>,
}

impl View for Trade {
    type V = TradeView;

    open spec fn view(&self) -> TradeView {
        TradeView { before: counts(self.before@), after: counts(self.after@) }
    }
}

/// Whether an executable result is the one that the model gives.
pub open spec fn trade_result_is(
    result: Result<Trade, LmsrError>,
    expected: Result<TradeView, LmsrError>,
) -> bool {
    match result {
        Ok(trade) => expected == Ok::<TradeView, LmsrError>(trade@),
        Err(error) => expected == Err::<TradeView, LmsrError>(error),
    }
}

/// A prediction market over outcomes of type `T`.
pub struct LmsrMarket<T> {
    outcomes: OutcomeSet<T>,
    shares: Vec<u64>,
    resolved: Option<T>,
}

impl<T> View for LmsrMarket<T> {
    type V = MarketState<T>;

    closed spec fn view(&self) -> MarketState<T> {
        MarketState {
            outcomes: self.outcomes@,
            shares: counts(self.shares@),
            resolved: self.resolved,
        }
    }
}

impl<T: Copy + Eq> LmsrMarket<T> {
    /// Well-formedness: the ledger is valid, every share count fits in
    /// `u64`, and `==` on outcomes decides whether two of them are the same.
    pub open spec fn wf(&self) -> bool {
        &&& obeys_concrete_eq::<T>()
        &&& self@.valid()
        &&& self@.fits()
    }

    /// Opens a market over `outcomes` with no shares out.
    pub fn new(outcomes: OutcomeSet<T>) -> (market: Self)
        requires
            outcomes.wf(),
        ensures
            market.wf(),
            market@ == MarketState::fresh(outcomes@),
    {
        let n: usize = outcomes.len();
        let mut shares: Vec<u64> = Vec::new();
        while shares.len() < n
            invariant
                shares@.len() <= n,
                forall|i: int| 0 <= i < shares@.len() ==> shares@[i] == 0,
            decreases n - shares@.len(),
        {
            shares.push(0);
        }
        let market = LmsrMarket { outcomes, shares, resolved: None };
        proof {
            assert(market@.shares =~= MarketState::fresh(outcomes@).shares);
        }
        market
    }

    /// The index under which the market keeps the share count of `outcome`.
    pub fn outcome_index(&self, outcome: T) -> (i: usize)
        requires
            self.wf(),
            self@.outcomes.contains(outcome),
        ensures
            i == self@.index_of(outcome),
            i < self@.outcomes.len(),
            self@.outcomes[i as int] == outcome,
    {
        self.outcomes.index_of(outcome)
    }

    /// Buys `amount` shares of `outcome`.
    ///
    /// A resolved market refuses. Otherwise the count of `outcome` grows by
    /// `amount`, no other count changes, and the counts on both sides of the
    /// trade are returned.
    pub fn buy(&mut self, outcome: T, amount: u64) -> (r: Result<Trade, LmsrError>)
        requires
            old(self).wf(),
            old(self)@.outcomes.contains(outcome),
            old(self)@.resolved is None ==> old(self)@.held(outcome) + amount <= u64::MAX,
        ensures
            final(self).wf(),
            trade_result_is(r, old(self)@.buy_result(outcome, amount as nat)),
            final(self)@ == old(self)@.after_buy(outcome, amount as nat),
            r is Ok <==> old(self)@.resolved is None,
            r is Err ==> r == Err::<Trade, LmsrError>(LmsrError::Resolved) && final(self)@ == old(
                self,
            )@,
    {
        if self.resolved.is_some() {
            return Err(LmsrError::Resolved);
        }
        let i: usize = self.outcomes.index_of(outcome);
        let before = self.shares.clone();
        let mut after = self.shares.clone();
        after.set(i, after[i] + amount);
        self.shares = after.clone();
        proof {
            assert(counts(after@) =~= counts(before@).update(
                i as int,
                (before@[i as int] + amount) as nat,
            ));
        }
        Ok(Trade { before, after })
    }

    /// What [`sell`](Self::sell) would return for a sale whose proceeds are
    /// covered. The market is left as it is: the counts returned are those by
    /// which the caller prices the sale before it is made.
    pub fn quote_sell(&self, outcome: T, amount: u64) -> (r: Result<Trade, LmsrError>)
        requires
            self.wf(),
            self@.outcomes.contains(outcome),
        ensures
            trade_result_is(r, self@.sell_result(outcome, amount as nat, true)),
    {
        if self.resolved.is_some() {
            return Err(LmsrError::Resolved);
        }
        let i: usize = self.outcomes.index_of(outcome);
        if amount > self.shares[i] {
            return Err(LmsrError::InsufficientShares);
        }
        let before = self.shares.clone();
        let mut after = self.shares.clone();
        after.set(i, after[i] - amount);
        proof {
            assert(counts(after@) =~= counts(before@).update(
                i as int,
                (before@[i as int] - amount) as nat,
            ));
        }
        Ok(Trade { before, after })
    }

    /// Sells `amount` shares of `outcome`, where `funded` tells whether the
    /// funds that the market has collected cover the proceeds of that sale.
    ///
    /// A resolved market refuses; so does one that holds less than `amount`
    /// of `outcome`; so does one whose funds do not cover the proceeds.
    /// Otherwise the count of `outcome` shrinks by `amount`, no other count
    /// changes, and the counts on both sides of the trade are returned. A
    /// refusal changes nothing.
    pub fn sell(&mut self, outcome: T, amount: u64, funded: bool) -> (r: Result<Trade, LmsrError>)
        requires
            old(self).wf(),
            old(self)@.outcomes.contains(outcome),
        ensures
            final(self).wf(),
            trade_result_is(r, old(self)@.sell_result(outcome, amount as nat, funded)),
            final(self)@ == old(self)@.after_sell(outcome, amount as nat, funded),
            old(self)@.resolved is Some ==> r == Err::<Trade, LmsrError>(LmsrError::Resolved),
            old(self)@.resolved is None && amount > old(self)@.held(outcome) ==> r == Err::<
                Trade,
                LmsrError,
            >(LmsrError::InsufficientShares),
            old(self)@.resolved is None && amount <= old(self)@.held(outcome) && !funded ==> r
                == Err::<Trade, LmsrError>(LmsrError::NegativeMarketCapitalization),
            r is Ok <==> old(self)@.resolved is None && amount <= old(self)@.held(outcome)
                && funded,
            r is Err ==> final(self)@ == old(self)@,
    {
        match self.quote_sell(outcome, amount) {
            Ok(trade) => {
                if !funded {
                    return Err(LmsrError::NegativeMarketCapitalization);
                }
                self.shares = trade.after.clone();
                Ok(trade)
            },
            Err(error) => Err(error),
        }
    }

    /// Declares `winning_outcome` the winner, once and for all. From then on
    /// the market admits no trade.
    ///
    /// A market that already has a winner refuses with `Resolved` and keeps
    /// the winner it has, whichever outcome is named. Share counts are never
    /// touched.
    pub fn resolve(&mut self, winning_outcome: T) -> (r: Result<(), LmsrError>)
        requires
            old(self).wf(),
            old(self)@.outcomes.contains(winning_outcome),
        ensures
            final(self).wf(),
            r == old(self)@.resolve_result(),
            final(self)@ == old(self)@.after_resolve(winning_outcome),
            r is Ok <==> old(self)@.resolved is None,
            r is Ok ==> final(self)@.resolved == Some(winning_outcome),
            r is Err ==> r == Err::<(), LmsrError>(LmsrError::Resolved) && final(self)@ == old(
                self,
            )@,
            final(self)@.shares == old(self)@.shares,
    {
        if self.resolved.is_some() {
            return Err(LmsrError::Resolved);
        }
        self.resolved = Some(winning_outcome);
        Ok(())
    }

    /// The number of shares among which a payout on `outcome` is divided.
    ///
    /// Fails with `InsufficientShares` exactly where nothing is held of
    /// `outcome`; whether the market is resolved plays no part.
    pub fn payout_shares(&self, outcome: T) -> (r: Result<u64, LmsrError>)
        requires
            self.wf(),
            self@.outcomes.contains(outcome),
        ensures
            match r {
                Ok(held) => self@.payout_shares(outcome) == Ok::<nat, LmsrError>(held as nat),
                Err(error) => self@.payout_shares(outcome) == Err::<nat, LmsrError>(error),
            },
    {
        let i: usize = self.outcomes.index_of(outcome);
        let held: u64 = self.shares[i];
        if held == 0 {
            Err(LmsrError::InsufficientShares)
        } else {
            Ok(held)
        }
    }

    /// The outcomes that the market was opened over.
    pub fn outcomes(&self) -> (set: &OutcomeSet<T>)
        ensures
            set@ == self@.outcomes,
            self.wf() ==> set.wf(),
    {
        &self.outcomes
    }

    /// The share count of every outcome, in index order.
    pub fn shares(&self) -> (shares: &Vec<u64>)
        ensures
            counts(shares@) == self@.shares,
    {
        &self.shares
    }

    /// The winning outcome, once there is one.
    pub fn resolved(&self) -> (winner: Option<T>)
        ensures
            winner == self@.resolved,
    {
        self.resolved
    }
}

impl<T> From<LmsrMarket<T>> for LmsrMarketDTO<T> {
    /// Takes the share counts and the winner over as they are.
    fn from(value: LmsrMarket<T>) -> (record: Self) {
        LmsrMarketDTO { shares: value.shares, resolved: value.resolved }
    }
}

impl<T> FromSpecImpl<LmsrMarket<T>> for LmsrMarketDTO<T> {
    open spec fn obeys_from_spec() -> bool {
        true
    }

    closed spec fn from_spec(value: LmsrMarket<T>) -> Self {
        LmsrMarketDTO { shares: value.shares, resolved: value.resolved }
    }
}

/// The record that a market converts into stands for the market's ledger.
pub proof fn lemma_record_of_market<T>(market: LmsrMarket<T>)
    ensures
        <LmsrMarketDTO<T> as FromSpec<LmsrMarket<T>>>::from_spec(market).state(market@.outcomes)
            == market@,
{
}

impl<T: Copy + Eq> LmsrMarket<T> {
    /// The market's ledger as a record.
    pub fn serialize(self) -> (record: LmsrMarketDTO<T>)
        ensures
            record.state(self@.outcomes) == self@,
    {
        LmsrMarketDTO::from(self)
    }

    /// Reads a record back as a market over `outcomes`.
    ///
    /// The record is accepted exactly if it holds one share count per outcome
    /// and its winner, if it names one, is among the outcomes. A record of
    /// the wrong length is refused as such, whatever winner it names.
    pub fn deserialize(outcomes: OutcomeSet<T>, record: LmsrMarketDTO<T>) -> (r: Result<
        Self,
        SnapshotError,
    >)
        requires
            outcomes.wf(),
        ensures
            match r {
                Ok(market) => market.wf() && record.read(outcomes@) == Ok::<
                    MarketState<T>,
                    SnapshotError,
                >(market@),
                Err(error) => record.read(outcomes@) == Err::<MarketState<T>, SnapshotError>(error),
            },
    {
        if record.shares.len() != outcomes.len() {
            return Err(SnapshotError::ShareCountMismatch);
        }
        match record.resolved {
            Some(winner) => {
                if outcomes.position(winner).is_none() {
                    return Err(SnapshotError::UnknownOutcome);
                }
            },
            None => {},
        }
        Ok(LmsrMarket { outcomes, shares: record.shares, resolved: record.resolved })
    }
}

} // verus!
