//! What holds of every market, stated over the model and proved.

use vstd::prelude::*;
use crate::market::LmsrError;
use crate::snapshot::{LmsrMarketDTO, SnapshotError};
use crate::state::{MarketState, TradeView};

verus! {

/// Every operation takes a valid market to a valid market over the same
/// outcomes; no trade touches the winner, and resolution touches no share
/// count.
pub proof fn lemma_operations_keep_validity<T>(
    market: MarketState<T>,
    outcome: T,
    amount: nat,
    funded: bool,
)
    requires
        market.valid(),
        market.outcomes.contains(outcome),
    ensures
        market.after_buy(outcome, amount).valid(),
        market.after_sell(outcome, amount, funded).valid(),
        market.after_resolve(outcome).valid(),
        market.after_buy(outcome, amount).outcomes == market.outcomes,
        market.after_sell(outcome, amount, funded).outcomes == market.outcomes,
        market.after_resolve(outcome).outcomes == market.outcomes,
        market.after_buy(outcome, amount).resolved == market.resolved,
        market.after_sell(outcome, amount, funded).resolved == market.resolved,
        market.after_resolve(outcome).shares == market.shares,
{
}

/// Share counts stay in the range of `u64`: a sale and a resolution never
/// take a count out of it, and a purchase does not where the bought count
/// with the amount added is in it.
pub proof fn lemma_operations_keep_counts_in_range<T>(
    market: MarketState<T>,
    outcome: T,
    amount: nat,
    funded: bool,
)
    requires
        market.valid(),
        market.fits(),
        market.outcomes.contains(outcome),
    ensures
        market.held(outcome) <= u64::MAX,
        market.after_sell(outcome, amount, funded).fits(),
        market.after_resolve(outcome).fits(),
        market.held(outcome) + amount <= u64::MAX ==> market.after_buy(outcome, amount).fits(),
{
}

/// Buying a positive amount of an outcome raises the share count of that
/// outcome by the amount and leaves every other count as it was, so that the
/// outcome's lead in shares over each of the others grows by the amount.
pub proof fn lemma_buy_raises_only_the_bought<T>(
    market: MarketState<T>,
    outcome: T,
    amount: nat,
    other: T,
)
    requires
        market.valid(),
        market.resolved is None,
        market.outcomes.contains(outcome),
        market.outcomes.contains(other),
        other != outcome,
        amount > 0,
    ensures
        market.after_buy(outcome, amount).held(outcome) == market.held(outcome) + amount,
        market.after_buy(outcome, amount).held(outcome) > market.held(outcome),
        market.after_buy(outcome, amount).held(other) == market.held(other),
        market.after_buy(outcome, amount).held(outcome) - market.after_buy(outcome, amount).held(
            other,
        ) == market.held(outcome) - market.held(other) + amount,
{
}

/// Selling what was just bought undoes the purchase: the sale is admitted
/// where its proceeds are covered, its trade is the purchase run backwards,
/// and the market is again what it was before the two.
pub proof fn lemma_buy_then_sell_restores<T>(market: MarketState<T>, outcome: T, amount: nat)
    requires
        market.valid(),
        market.resolved is None,
        market.outcomes.contains(outcome),
    ensures
        market.buy_result(outcome, amount) is Ok,
        market.after_buy(outcome, amount).sell_result(outcome, amount, true) == Ok::<
            TradeView,
            LmsrError,
        >(market.buy_result(outcome, amount).unwrap().reversed()),
        market.after_buy(outcome, amount).after_sell(outcome, amount, true) == market,
{
    let bought = market.after_buy(outcome, amount);
    let sold = bought.after_sell(outcome, amount, true);
    assert(sold.shares =~= market.shares);
}

/// Whatever cost function of the share counts a trade is priced by, selling
/// what was just bought pays back what the purchase cost: the difference in
/// cost across the sale, taken from before to after, is the difference
/// across the purchase, taken from after to before.
pub proof fn lemma_round_trip_pays_back<T, V>(
    market: MarketState<T>,
    outcome: T,
    amount: nat,
    cost: spec_fn(Seq<nat>) -> V,
    difference: spec_fn(V, V) -> V,
)
    requires
        market.valid(),
        market.resolved is None,
        market.outcomes.contains(outcome),
    ensures
        ({
            let bought = market.buy_result(outcome, amount).unwrap();
            let sold = market.after_buy(outcome, amount).sell_result(outcome, amount, true).unwrap();
            difference(cost(sold.before), cost(sold.after)) == difference(
                cost(bought.after),
                cost(bought.before),
            )
        }),
{
    lemma_buy_then_sell_restores(market, outcome, amount);
}

/// No more can be sold of an outcome than is held of it: on a market that is
/// not resolved such a sale fails with `InsufficientShares`, whether or not
/// its proceeds would be covered, and changes nothing.
pub proof fn lemma_oversell_is_refused<T>(
    market: MarketState<T>,
    outcome: T,
    amount: nat,
    funded: bool,
)
    requires
        market.resolved is None,
        amount > market.held(outcome),
    ensures
        market.sell_result(outcome, amount, funded) == Err::<TradeView, LmsrError>(
            LmsrError::InsufficientShares,
        ),
        market.after_sell(outcome, amount, funded) == market,
{
}

/// A resolved market admits no trade: every purchase and every sale fails
/// with `Resolved` and changes nothing.
pub proof fn lemma_resolved_market_is_closed<T>(
    market: MarketState<T>,
    outcome: T,
    amount: nat,
    funded: bool,
)
    requires
        market.resolved is Some,
    ensures
        market.buy_result(outcome, amount) == Err::<TradeView, LmsrError>(LmsrError::Resolved),
        market.after_buy(outcome, amount) == market,
        market.sell_result(outcome, amount, funded) == Err::<TradeView, LmsrError>(
            LmsrError::Resolved,
        ),
        market.after_sell(outcome, amount, funded) == market,
{
}

/// Resolution closes the market: after a winner is declared, on a market
/// with or without an earlier winner, every purchase and sale is refused.
pub proof fn lemma_resolve_closes_the_market<T>(
    market: MarketState<T>,
    winner: T,
    outcome: T,
    amount: nat,
    funded: bool,
)
    ensures
        market.after_resolve(winner).resolved is Some,
        market.after_resolve(winner).shares == market.shares,
        market.after_resolve(winner).buy_result(outcome, amount) == Err::<TradeView, LmsrError>(
            LmsrError::Resolved,
        ),
        market.after_resolve(winner).sell_result(outcome, amount, funded) == Err::<
            TradeView,
            LmsrError,
        >(LmsrError::Resolved),
{
}

/// The first resolution is the only one: on a market without a winner it
/// succeeds and makes the named outcome the winner; on a market with a winner
/// it fails with `Resolved`, whichever outcome is named.
pub proof fn lemma_resolve_succeeds_once<T>(market: MarketState<T>, first: T, second: T)
    requires
        market.resolved is None,
    ensures
        market.resolve_result() == Ok::<(), LmsrError>(()),
        market.after_resolve(first).resolved == Some(first),
        market.after_resolve(first).resolve_result() == Err::<(), LmsrError>(LmsrError::Resolved),
        market.after_resolve(first).after_resolve(second) == market.after_resolve(first),
{
}

/// A winner, once set, stays: no purchase, no sale and no resolution unsets
/// it or puts another outcome in its place. Each of them leaves a resolved
/// market exactly as it was.
pub proof fn lemma_winner_is_permanent<T>(
    market: MarketState<T>,
    winner: T,
    outcome: T,
    amount: nat,
    funded: bool,
)
    requires
        market.resolved == Some(winner),
    ensures
        market.after_buy(outcome, amount).resolved == Some(winner),
        market.after_sell(outcome, amount, funded).resolved == Some(winner),
        market.after_resolve(outcome).resolved == Some(winner),
        market.after_buy(outcome, amount) == market,
        market.after_sell(outcome, amount, funded) == market,
        market.after_resolve(outcome) == market,
{
}

/// A record that stands for a valid market reads back, over that market's
/// outcomes, as that market.
pub proof fn lemma_record_reads_back<T>(market: MarketState<T>, record: LmsrMarketDTO<T>)
    requires
        market.valid(),
        record.state(market.outcomes) == market,
    ensures
        record.read(market.outcomes) == Ok::<MarketState<T>, SnapshotError>(market),
{
}

} // verus!
