//! Arbitrage detection over a matched Yes/No book pair, and the admission
//! filters a detected opportunity must still clear before execution.
//!
//! An opportunity exists when the two best asks together cost at most
//! `PRICE_SCALE - execution_spread`: buying both sides then pays less than
//! the guaranteed $1.00 redemption.  All quantities are the fixed-point
//! units of [`crate::units`].

use vstd::prelude::*;

use crate::books::BookSnapshot;
use crate::units::PRICE_SCALE;

verus! {

/// Minimum seconds between two trade executions.
pub const MIN_TRADE_INTERVAL_SECS: u64 = 3;

/// A profitable, sizeable two-leg opportunity, built fresh per detection.
#[derive(Clone, Copy, Debug, PartialEq, Eq, Structural)]
pub struct ArbitrageOpportunity {
    pub market_id: u64,
    pub yes_token_id: u64,
    pub no_token_id: u64,
    /// Best ask of the Yes book, price units.
    pub yes_ask_price: u64,
    /// Best ask of the No book, price units.
    pub no_ask_price: u64,
    /// Size available at the Yes best ask, size units.
    pub yes_size: u64,
    /// Size available at the No best ask, size units.
    pub no_size: u64,
    /// `yes_ask_price + no_ask_price`.
    pub total_cost: u64,
    /// `(PRICE_SCALE - total_cost) * 100`: percent scaled by
    /// `PRICE_SCALE`, so 20_000 reads as 2.00%.
    pub profit_percentage: u64,
    /// `min(yes_size, no_size, max_order_size)`.
    pub size: u64,
}

impl ArbitrageOpportunity {
    /// Internal consistency of a detected opportunity.
    pub open spec fn wf(&self) -> bool {
        &&& self.total_cost == self.yes_ask_price + self.no_ask_price
        &&& self.total_cost <= PRICE_SCALE
        &&& self.profit_percentage == (PRICE_SCALE - self.total_cost) * 100
        &&& self.size <= self.yes_size
        &&& self.size <= self.no_size
    }

    /// Cost of each leg at the opportunity size, in cost units
    /// (price times size).
    pub fn order_costs(&self) -> (r: (i64, i64))
        requires
            self.wf(),
            self.size * PRICE_SCALE <= i64::MAX,
        ensures
            r.0 == self.yes_ask_price * self.size,
            r.1 == self.no_ask_price * self.size,
    {
        proof {
            assert(self.yes_ask_price * self.size <= PRICE_SCALE * self.size) by (nonlinear_arith)
                requires
                    self.yes_ask_price <= PRICE_SCALE,
            ;
            assert(self.no_ask_price * self.size <= PRICE_SCALE * self.size) by (nonlinear_arith)
                requires
                    self.no_ask_price <= PRICE_SCALE,
            ;
        }
        let yes_cost = (self.yes_ask_price * self.size) as i64;
        let no_cost = (self.no_ask_price * self.size) as i64;
        (yes_cost, no_cost)
    }
}

/// Detects arbitrage between the best asks of a book pair.
pub struct ArbitrageDetector {
    /// Safety margin below the $1.00 break-even, price units.
    pub execution_spread: u64,
    /// Cap on the opportunity size, size units.
    pub max_order_size: u64,
}

impl ArbitrageDetector {
    pub fn new(execution_spread: u64, max_order_size: u64) -> (r: Self)
        ensures
            r.execution_spread == execution_spread,
            r.max_order_size == max_order_size,
    {
        ArbitrageDetector { execution_spread, max_order_size }
    }

    /// An opportunity exists exactly when both books quote an ask and the
    /// combined best asks cost at most `PRICE_SCALE - execution_spread`.
    /// All fields of the result are determined by the two best asks.
    pub fn check_arbitrage(
        &self,
        yes_book: &BookSnapshot,
        no_book: &BookSnapshot,
        market_id: u64,
    ) -> (r: Option<ArbitrageOpportunity>)
        ensures
            r is Some <==> {
                &&& yes_book.spec_best_ask() is Some
                &&& no_book.spec_best_ask() is Some
                &&& yes_book.spec_best_ask()->Some_0.price + no_book.spec_best_ask()->Some_0.price
                    + self.execution_spread <= PRICE_SCALE
            },
            r matches Some(opp) ==> {
                let yes = yes_book.spec_best_ask()->Some_0;
                let no = no_book.spec_best_ask()->Some_0;
                &&& opp.wf()
                &&& opp.market_id == market_id
                &&& opp.yes_token_id == yes_book.asset_id
                &&& opp.no_token_id == no_book.asset_id
                &&& opp.yes_ask_price == yes.price
                &&& opp.no_ask_price == no.price
                &&& opp.yes_size == yes.size
                &&& opp.no_size == no.size
                &&& opp.total_cost == yes.price + no.price
                &&& opp.profit_percentage == (PRICE_SCALE - (yes.price + no.price)) * 100
                &&& opp.size == if yes.size <= no.size && yes.size <= self.max_order_size {
                    yes.size
                } else if no.size <= yes.size && no.size <= self.max_order_size {
                    no.size
                } else {
                    self.max_order_size
                }
            },
    {
        let yes = match yes_book.best_ask() {
            Some(level) => level,
            None => {
                return None;
            },
        };
        let no = match no_book.best_ask() {
            Some(level) => level,
            None => {
                return None;
            },
        };
        // wide arithmetic: raw book prices are unconstrained
        let total_wide: u128 = (yes.price as u128) + (no.price as u128);
        let threshold: u128 = (PRICE_SCALE as u128) - (self.execution_spread as u128).min(
            PRICE_SCALE as u128,
        );
        if (self.execution_spread as u128) > (PRICE_SCALE as u128) || total_wide > threshold {
            return None;
        }
        let total_cost: u64 = (total_wide) as u64;
        let profit_units: u64 = PRICE_SCALE - total_cost;
        let size_cap = if yes.size <= no.size {
            yes.size
        } else {
            no.size
        };
        let size = if size_cap <= self.max_order_size {
            size_cap
        } else {
            self.max_order_size
        };
        Some(
            ArbitrageOpportunity {
                market_id,
                yes_token_id: yes_book.asset_id,
                no_token_id: no_book.asset_id,
                yes_ask_price: yes.price,
                no_ask_price: no.price,
                yes_size: yes.size,
                no_size: no.size,
                total_cost,
                profit_percentage: profit_units * 100,
                size,
            },
        )
    }
}

/// Why a detected opportunity was not executed.  The filters are
/// independent short-circuits, checked in this order; failing any one
/// skips the opportunity without side effects.
#[derive(Clone, Copy, Debug, PartialEq, Eq, Structural)]
pub enum SkipReason {
    /// The Yes ask is below the configured minimum.
    YesPriceBelowMinimum,
    /// The No ask is below the configured minimum.
    NoPriceBelowMinimum,
    /// The market ends within the configured cutoff.
    TooCloseToMarketEnd,
    /// Charging both legs would exceed the exposure ceiling.
    ExposureLimit,
    /// The market's positions are already imbalanced.
    PositionImbalance,
    /// The previous trade was too recent.
    TradeSpacing,
}

/// Whether the market-end cutoff applies: enabled (nonzero) and the time
/// left, in seconds, is at most `minutes * 60`.  A market already past
/// its end always triggers an enabled cutoff.
pub open spec fn spec_end_cutoff_hit(stop_minutes: u64, now: int, market_end: int) -> bool {
    stop_minutes > 0 && market_end - now <= stop_minutes * 60
}

/// The admission gate run between detection and execution.  Price floors
/// of zero are disabled, as is a `stop_before_end_minutes` of zero; the
/// exposure and imbalance verdicts are computed by the position tracker
/// and the balancer; `seconds_since_last_trade` is `None` when no trade
/// has happened yet.  Returns the first filter that fails, or `None`
/// when the opportunity may execute.
pub fn admission_decision(
    opp: &ArbitrageOpportunity,
    min_yes_price: u64,
    min_no_price: u64,
    stop_before_end_minutes: u64,
    now: u64,
    market_end: u64,
    would_exceed_exposure: bool,
    position_imbalanced: bool,
    seconds_since_last_trade: Option<u64>,
    min_trade_interval_secs: u64,
) -> (r: Option<SkipReason>)
    requires
        stop_before_end_minutes * 60 <= u64::MAX,
    ensures
        r == {
            if min_yes_price > 0 && opp.yes_ask_price < min_yes_price {
                Some(SkipReason::YesPriceBelowMinimum)
            } else if min_no_price > 0 && opp.no_ask_price < min_no_price {
                Some(SkipReason::NoPriceBelowMinimum)
            } else if spec_end_cutoff_hit(stop_before_end_minutes, now as int, market_end as int) {
                Some(SkipReason::TooCloseToMarketEnd)
            } else if would_exceed_exposure {
                Some(SkipReason::ExposureLimit)
            } else if position_imbalanced {
                Some(SkipReason::PositionImbalance)
            } else if seconds_since_last_trade matches Some(e) && e < min_trade_interval_secs {
                Some(SkipReason::TradeSpacing)
            } else {
                None
            }
        },
{
    if min_yes_price > 0 && opp.yes_ask_price < min_yes_price {
        return Some(SkipReason::YesPriceBelowMinimum);
    }
    if min_no_price > 0 && opp.no_ask_price < min_no_price {
        return Some(SkipReason::NoPriceBelowMinimum);
    }
    if stop_before_end_minutes > 0 {
        let threshold = stop_before_end_minutes * 60;
        // `market_end - now <= threshold`, written without underflow
        if market_end <= now || market_end - now <= threshold {
            return Some(SkipReason::TooCloseToMarketEnd);
        }
    }
    if would_exceed_exposure {
        return Some(SkipReason::ExposureLimit);
    }
    if position_imbalanced {
        return Some(SkipReason::PositionImbalance);
    }
    if let Some(elapsed) = seconds_since_last_trade {
        if elapsed < min_trade_interval_secs {
            return Some(SkipReason::TradeSpacing);
        }
    }
    None
}

} // verus!
