//! Market identity as the engine sees it.
//!
//! Identifiers are plain `u64` handles; the process boundary maps them to
//! the exchange's condition and token ids.  A market binds two distinct
//! outcome tokens, Yes and No, for the lifetime of one window.

use vstd::prelude::*;

verus! {

/// One tradable market of the current window.
pub struct MarketInfo {
    pub market_id: u64,
    pub slug: String,
    pub yes_token_id: u64,
    pub no_token_id: u64,
    pub title: String,
    /// Unix second at which the market ends.
    pub end_time: u64,
    pub crypto_symbol: String,
}

impl MarketInfo {
    /// Yes and No are always distinct tokens.
    pub open spec fn wf(&self) -> bool {
        self.yes_token_id != self.no_token_id
    }
}

/// The token pair of one market, the working key of the balancer and the
/// book pairer.
#[derive(Clone, Copy, Debug, PartialEq, Eq, Structural)]
pub struct MarketTokens {
    pub market_id: u64,
    pub yes_token_id: u64,
    pub no_token_id: u64,
}

impl MarketTokens {
    pub open spec fn wf(&self) -> bool {
        self.yes_token_id != self.no_token_id
    }

    /// Does `token` belong to this market?
    pub open spec fn spec_contains_token(&self, token: u64) -> bool {
        self.yes_token_id == token || self.no_token_id == token
    }

    /// The market's other token.
    pub open spec fn spec_sibling_of(&self, token: u64) -> u64 {
        if self.yes_token_id == token {
            self.no_token_id
        } else {
            self.yes_token_id
        }
    }
}

/// One position row as reported by the authoritative position source:
/// which market, which outcome slot, which token, and how much.
#[derive(Clone, Copy, Debug)]
pub struct HoldingEntry {
    pub condition_id: u64,
    /// Outcome slot; both 0/1 and 1/2 conventions occur upstream.
    pub outcome_index: u32,
    /// The outcome token held.
    pub asset: u64,
    /// Held size in size units.
    pub size: i64,
}

} // verus!
