//! The ledger under an LMSR cost function: prices, costs and payouts.

use lmsr::{BinaryOutcome, LmsrError, LmsrMarket, OutcomeSet};

/// A market maker that prices the ledger's trades by the LMSR cost function
/// `C(q) = b * ln(sum_i exp(q_i / b))` and keeps the funds collected.
struct PricedMarket<T> {
    ledger: LmsrMarket<T>,
    liquidity: f64,
    market_volume: f64,
}

impl<T: Copy + Eq> PricedMarket<T> {
    fn over(outcomes: OutcomeSet<T>, liquidity: f64) -> Self {
        PricedMarket { ledger: LmsrMarket::new(outcomes), liquidity, market_volume: 0.0 }
    }

    fn cost(&self, shares: &[u64]) -> f64 {
        let sum: f64 = shares.iter().map(|&q| (q as f64 / self.liquidity).exp()).sum();
        self.liquidity * sum.ln()
    }

    fn index(&self, outcome: T) -> usize {
        self.ledger.outcomes().position(outcome).expect("Invalid outcome");
        self.ledger.outcome_index(outcome)
    }

    fn price(&self, outcome: T) -> Result<f64, LmsrError> {
        let i = self.index(outcome);
        let shares = self.ledger.shares();
        let exp_qi = (shares[i] as f64 / self.liquidity).exp();
        let denom: f64 = shares.iter().map(|&q| (q as f64 / self.liquidity).exp()).sum();
        Ok(exp_qi / denom)
    }

    fn buy(&mut self, outcome: T, amount: u64) -> Result<f64, LmsrError> {
        let i = self.index(outcome);
        if self.ledger.resolved().is_none() {
            self.ledger.shares()[i].checked_add(amount).expect("attempt to add with overflow");
        }
        let trade = self.ledger.buy(outcome, amount)?;
        let current_cost = self.cost(&trade.before);
        let new_cost = self.cost(&trade.after);
        self.market_volume += new_cost - current_cost;
        Ok(new_cost - current_cost)
    }

    fn sell(&mut self, outcome: T, amount: u64) -> Result<f64, LmsrError> {
        self.index(outcome);
        let quote = self.ledger.quote_sell(outcome, amount)?;
        let current_cost = self.cost(&quote.before);
        let new_cost = self.cost(&quote.after);
        let funded = !(self.market_volume - (current_cost - new_cost) < 0.0);
        self.ledger.sell(outcome, amount, funded)?;
        self.market_volume -= current_cost - new_cost;
        Ok(current_cost - new_cost)
    }

    fn resolve(&mut self, winning_outcome: T) -> Result<(), LmsrError> {
        self.index(winning_outcome);
        self.ledger.resolve(winning_outcome)
    }

    fn payout_per_share(&self, outcome: T) -> Result<f64, LmsrError> {
        self.index(outcome);
        let amount = self.ledger.payout_shares(outcome)?;
        Ok(self.market_volume / amount as f64)
    }
}

fn binary(liquidity: f64) -> PricedMarket<BinaryOutcome> {
    PricedMarket::over(BinaryOutcome::outcomes(), liquidity)
}

fn three_way(liquidity: f64) -> PricedMarket<u8> {
    PricedMarket::over(OutcomeSet::new(vec![10u8, 20, 30]).expect("a valid outcome set"), liquidity)
}

fn close(a: f64, b: f64) -> bool {
    (a - b).abs() <= 1e-12
}

#[test]
fn test_price_equal() {
    let market = binary(10.0);

    assert_eq!(
        market.price(BinaryOutcome::Yes),
        market.price(BinaryOutcome::No)
    );
}

#[test]
fn test_buy_raises_price() {
    let mut market = binary(10.0);

    market.buy(BinaryOutcome::Yes, 1).expect("could not buy");

    assert!(
        market
            .price(BinaryOutcome::Yes)
            .expect("could not determine yes price")
            > market
                .price(BinaryOutcome::No)
                .expect("could not determine no price")
    );
}

#[test]
fn test_buy_sell_no_impact_on_market() {
    let mut market = binary(10.0);

    market.buy(BinaryOutcome::Yes, 1).expect("could not buy");
    market.sell(BinaryOutcome::Yes, 1).expect("could not sell");

    assert_eq!(
        market.price(BinaryOutcome::Yes),
        market.price(BinaryOutcome::No)
    );
}

#[test]
fn test_buy_sell_no_impact_on_trader() {
    let mut market = binary(10.0);

    let cost = market.buy(BinaryOutcome::Yes, 1).expect("could not buy");
    let wins = market.sell(BinaryOutcome::Yes, 1).expect("could not sell");

    assert_eq!(cost, wins);
}

#[test]
fn test_market_payout_same_one() {
    let mut market = binary(10.0);

    let cost = market.buy(BinaryOutcome::Yes, 1).expect("could not buy");
    market
        .resolve(BinaryOutcome::Yes)
        .expect("could not resolve market");

    assert_eq!(
        cost,
        market
            .payout_per_share(BinaryOutcome::Yes)
            .expect("could not calculate payout")
    );
}

#[test]
fn test_market_payout_same_multiple() {
    let shares = 8;
    let mut market = binary(10.0);

    let cost = market
        .buy(BinaryOutcome::Yes, shares)
        .expect("could not buy");
    market
        .resolve(BinaryOutcome::Yes)
        .expect("could not resolve market");

    assert_eq!(
        cost,
        market
            .payout_per_share(BinaryOutcome::Yes)
            .expect("could not calculate payout")
            * shares as f64
    );
}

#[test]
fn test_market_payout_different_multiple() {
    let shares: u64 = 8;
    let mut market = binary(10.0);

    let mut cost = market
        .buy(BinaryOutcome::Yes, shares.div_ceil(2))
        .expect("could not buy");

    cost += market
        .buy(BinaryOutcome::No, (shares + 1).div_ceil(2))
        .expect("could not buy");

    market
        .resolve(BinaryOutcome::Yes)
        .expect("could not resolve market");

    assert_eq!(
        cost,
        market
            .payout_per_share(BinaryOutcome::Yes)
            .expect("could not calculate payout")
            * (shares / 2) as f64
    );
}

#[test]
fn test_market_payout_different_multiple_with_sell() {
    let shares: u64 = 8;
    let mut market = binary(10.0);

    let mut cost = market
        .buy(BinaryOutcome::Yes, shares.div_ceil(2))
        .expect("could not buy");

    cost += market
        .buy(BinaryOutcome::No, (shares + 1).div_ceil(2))
        .expect("could not buy");

    cost -= market.sell(BinaryOutcome::No, 1).expect("coult not sell");

    market
        .resolve(BinaryOutcome::Yes)
        .expect("could not resolve market");

    assert_eq!(
        cost,
        market
            .payout_per_share(BinaryOutcome::Yes)
            .expect("could not calculate payout")
            * (shares / 2) as f64
    );
}

#[test]
fn new_binary_market_prices_both_outcomes_at_one_half() {
    let market = binary(10.0);

    assert_eq!(market.price(BinaryOutcome::Yes), Ok(0.5));
    assert_eq!(market.price(BinaryOutcome::No), Ok(0.5));
}

#[test]
fn first_share_costs_what_the_cost_function_says() {
    let mut market = binary(10.0);

    let cost = market.buy(BinaryOutcome::Yes, 1).expect("could not buy");

    assert!(close(cost, 0.5124947951362566));
    assert!(close(market.market_volume, 0.5124947951362566));
    assert!(close(market.price(BinaryOutcome::Yes).unwrap(), 0.52497918747894));
    assert!(close(market.price(BinaryOutcome::No).unwrap(), 1.0 - 0.52497918747894));
}

#[test]
fn cost_of_an_empty_binary_market_is_liquidity_times_ln_two() {
    let market = binary(10.0);

    assert!(close(market.cost(market.ledger.shares()), 6.931471805599453));
}

#[test]
fn sell_returns_what_the_buy_cost() {
    let mut market = binary(10.0);

    let cost = market.buy(BinaryOutcome::Yes, 1).expect("could not buy");
    let proceeds = market.sell(BinaryOutcome::Yes, 1).expect("could not sell");

    assert_eq!(proceeds, cost);
    assert_eq!(
        market.price(BinaryOutcome::Yes),
        market.price(BinaryOutcome::No)
    );
    assert_eq!(market.ledger.shares(), &vec![0, 0]);
}

#[test]
fn payout_times_shares_is_cost_of_the_buy() {
    let mut market = binary(10.0);

    let cost = market.buy(BinaryOutcome::Yes, 8).expect("could not buy");
    market.resolve(BinaryOutcome::Yes).expect("could not resolve market");

    assert!(close(cost, 4.779534853878325));
    assert_eq!(market.payout_per_share(BinaryOutcome::Yes).unwrap() * 8.0, cost);
}

#[test]
fn payout_on_winner_divides_everything_paid_in() {
    let mut market = binary(10.0);

    let mut paid = market.buy(BinaryOutcome::Yes, 4).expect("could not buy");
    paid += market.buy(BinaryOutcome::No, 5).expect("could not buy");
    market.resolve(BinaryOutcome::Yes).expect("could not resolve market");

    assert!(close(paid, 4.512494795136257));
    assert_eq!(market.payout_per_share(BinaryOutcome::Yes).unwrap() * 4.0, paid);
}

#[test]
fn sell_without_shares_fails_with_insufficient_shares() {
    let mut market = binary(10.0);

    assert_eq!(market.sell(BinaryOutcome::Yes, 1), Err(LmsrError::InsufficientShares));
    assert_eq!(market.ledger.shares(), &vec![0, 0]);
    assert_eq!(market.market_volume, 0.0);
}

#[test]
fn prices_sum_to_one_and_lie_strictly_between_zero_and_one() {
    let mut market = three_way(10.0);
    market.buy(10, 3).expect("could not buy");
    market.buy(20, 7).expect("could not buy");
    market.buy(30, 2).expect("could not buy");

    let prices = [
        market.price(10).unwrap(),
        market.price(20).unwrap(),
        market.price(30).unwrap(),
    ];

    assert!(close(prices[0], 0.29440667512512325));
    assert!(close(prices[1], 0.4392031491021087));
    assert!(close(prices[2], 0.2663901757727681));
    assert!(close(prices[0] + prices[1] + prices[2], 1.0));
    for p in prices {
        assert!(0.0 < p && p < 1.0);
    }
}

#[test]
fn buying_raises_the_price_relative_to_every_other_outcome() {
    let mut market = three_way(10.0);
    market.buy(20, 5).expect("could not buy");
    let before = [
        market.price(10).unwrap(),
        market.price(20).unwrap(),
        market.price(30).unwrap(),
    ];

    market.buy(10, 2).expect("could not buy");

    let after = [
        market.price(10).unwrap(),
        market.price(20).unwrap(),
        market.price(30).unwrap(),
    ];
    assert!(after[0] > before[0]);
    assert!(after[0] / after[1] > before[0] / before[1]);
    assert!(after[0] / after[2] > before[0] / before[2]);
}

#[test]
fn buying_then_selling_restores_every_price() {
    let mut market = three_way(10.0);
    market.buy(10, 4).expect("could not buy");
    market.buy(30, 9).expect("could not buy");
    let before = [market.price(10), market.price(20), market.price(30)];

    let cost = market.buy(20, 6).expect("could not buy");
    let proceeds = market.sell(20, 6).expect("could not sell");

    assert_eq!(proceeds, cost);
    assert_eq!([market.price(10), market.price(20), market.price(30)], before);
}

#[test]
fn payout_times_shares_is_market_volume() {
    let mut market = three_way(10.0);
    market.buy(30, 8).expect("could not buy");
    market.resolve(30).expect("could not resolve market");

    let payout = market.payout_per_share(30).expect("could not calculate payout");

    assert!(close(payout * 8.0, market.market_volume));
}

#[test]
fn payout_on_an_outcome_nobody_holds_fails() {
    let mut market = binary(10.0);
    market.buy(BinaryOutcome::Yes, 3).expect("could not buy");
    market.resolve(BinaryOutcome::No).expect("could not resolve market");

    assert_eq!(
        market.payout_per_share(BinaryOutcome::No),
        Err(LmsrError::InsufficientShares)
    );
}

#[test]
fn trades_on_a_resolved_market_fail_and_change_nothing() {
    let mut market = binary(10.0);
    market.buy(BinaryOutcome::Yes, 3).expect("could not buy");
    market.resolve(BinaryOutcome::No).expect("could not resolve market");
    let volume = market.market_volume;

    assert_eq!(market.buy(BinaryOutcome::Yes, 1), Err(LmsrError::Resolved));
    assert_eq!(market.sell(BinaryOutcome::Yes, 1), Err(LmsrError::Resolved));
    assert_eq!(market.sell(BinaryOutcome::Yes, 4), Err(LmsrError::Resolved));

    assert_eq!(market.ledger.shares(), &vec![3, 0]);
    assert_eq!(market.market_volume, volume);
}

#[test]
fn sale_that_the_funds_do_not_cover_fails_and_changes_nothing() {
    let mut market = binary(10.0);
    market.buy(BinaryOutcome::Yes, 5).expect("could not buy");
    market.market_volume = 0.0;

    assert_eq!(
        market.sell(BinaryOutcome::Yes, 5),
        Err(LmsrError::NegativeMarketCapitalization)
    );
    assert_eq!(market.ledger.shares(), &vec![5, 0]);
    assert_eq!(market.market_volume, 0.0);
}

#[test]
fn second_resolution_fails_and_changes_nothing() {
    let mut market = binary(10.0);
    let cost = market.buy(BinaryOutcome::Yes, 8).expect("could not buy");
    market.resolve(BinaryOutcome::Yes).expect("could not resolve market");
    let payout = market.payout_per_share(BinaryOutcome::Yes);

    assert_eq!(market.resolve(BinaryOutcome::No), Err(LmsrError::Resolved));

    assert_eq!(market.ledger.resolved(), Some(BinaryOutcome::Yes));
    assert_eq!(market.ledger.shares(), &vec![8, 0]);
    assert_eq!(market.market_volume, cost);
    assert_eq!(market.liquidity, 10.0);
    assert_eq!(market.payout_per_share(BinaryOutcome::Yes), payout);
}
