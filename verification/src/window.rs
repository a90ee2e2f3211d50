//! Window clock and market scheduling decisions.
//!
//! Markets run in fixed 300-second windows aligned to multiples of 300
//! seconds of Unix time.  Everything here is pure arithmetic on second
//! counts; fetching the actual markets is left to the caller, which feeds
//! the outcomes back into [`market_fetch_decision`].

use vstd::prelude::*;

verus! {

/// Length of one trading window in seconds.
pub const FIVE_MIN_SECS: u64 = 300;

/// Seconds between retries while waiting for a window's markets to appear.
pub const MARKET_RETRY_SECS: u64 = 2;

/// Total retry budget, in seconds, before giving up on the current window.
pub const MARKET_MAX_RETRY_SECS: u64 = 90;

/// Start of the window containing second `now`.
pub open spec fn spec_window_start(now: int) -> int {
    (now / (FIVE_MIN_SECS as int)) * (FIVE_MIN_SECS as int)
}

/// Discovers the markets bound to a window.  The lookup itself is an
/// external capability; this type carries the configured symbols and the
/// window arithmetic the lookup is keyed by.
pub struct MarketDiscoverer {
    pub crypto_symbols: Vec<String>,
}

impl MarketDiscoverer {
    pub fn new(crypto_symbols: Vec<String>) -> (r: Self)
        ensures
            r.crypto_symbols == crypto_symbols,
    {
        MarketDiscoverer { crypto_symbols }
    }

    /// Start of the current window: the greatest multiple of 300 that is
    /// at most `now`.
    pub fn calculate_current_window_timestamp(now: u64) -> (r: u64)
        ensures
            r == spec_window_start(now as int),
            r % FIVE_MIN_SECS == 0,
            r <= now < r + FIVE_MIN_SECS,
    {
        let r = (now / FIVE_MIN_SECS) * FIVE_MIN_SECS;
        proof {
            vstd::arithmetic::div_mod::lemma_fundamental_div_mod(
                now as int,
                FIVE_MIN_SECS as int,
            );
            vstd::arithmetic::div_mod::lemma_mod_multiples_basic(
                now as int / (FIVE_MIN_SECS as int),
                FIVE_MIN_SECS as int,
            );
        }
        r
    }

    /// Start of the window after the one containing `now`.
    pub fn calculate_next_window_timestamp(now: u64) -> (r: u64)
        requires
            now + FIVE_MIN_SECS <= u64::MAX,
        ensures
            r == spec_window_start(now as int) + FIVE_MIN_SECS,
            r % FIVE_MIN_SECS == 0,
            now < r <= now + FIVE_MIN_SECS,
    {
        let start = Self::calculate_current_window_timestamp(now);
        proof {
            vstd::arithmetic::div_mod::lemma_add_mod_noop(
                start as int,
                FIVE_MIN_SECS as int,
                FIVE_MIN_SECS as int,
            );
            vstd::arithmetic::div_mod::lemma_mod_self_0(FIVE_MIN_SECS as int);
        }
        start + FIVE_MIN_SECS
    }
}

/// The window clock is idempotent: every second of a window maps to the
/// same window start.
pub proof fn lemma_window_start_idempotent(now: int, t: int)
    requires
        0 <= now,
        spec_window_start(now) <= t < spec_window_start(now) + FIVE_MIN_SECS,
    ensures
        spec_window_start(t) == spec_window_start(now),
{
    let w = FIVE_MIN_SECS as int;
    vstd::arithmetic::div_mod::lemma_fundamental_div_mod(now, w);
    vstd::arithmetic::div_mod::lemma_fundamental_div_mod(t, w);
    vstd::arithmetic::div_mod::lemma_fundamental_div_mod_converse(
        t,
        w,
        now / w,
        t - (now / w) * w,
    );
}

/// The window clock is monotone: a later second never maps to an earlier
/// window start.
pub proof fn lemma_window_start_monotone(a: int, b: int)
    requires
        0 <= a <= b,
    ensures
        spec_window_start(a) <= spec_window_start(b),
{
    let w = FIVE_MIN_SECS as int;
    vstd::arithmetic::div_mod::lemma_div_is_ordered(a, b, w);
    vstd::arithmetic::mul::lemma_mul_inequality(a / w, b / w, w);
}

/// True when `now` has left the window that started at `current_window`.
pub fn window_rolled_over(current_window: u64, now: u64) -> (r: bool)
    ensures
        r == (spec_window_start(now as int) != current_window),
{
    MarketDiscoverer::calculate_current_window_timestamp(now) != current_window
}

/// What to do after one attempt to fetch the current window's markets.
#[derive(Debug, PartialEq, Eq, Structural)]
pub enum FetchDecision {
    /// Markets were found; start monitoring them.
    UseMarkets,
    /// No markets yet; retry after this many seconds.
    RetryAfter(u64),
    /// Give up on this window and block until the next boundary.
    WaitForNextWindow,
}

/// Decision step of the market-fetch retry loop.  `elapsed_secs` is the
/// time already spent retrying within the current window; a lookup error
/// is treated like an empty result once the retry budget is spent, but
/// sends the scheduler straight to the next window, matching the policy
/// that errors are never fatal.
pub fn market_fetch_decision(lookup_failed: bool, markets_found: bool, elapsed_secs: u64) -> (r:
    FetchDecision)
    ensures
        lookup_failed ==> r == FetchDecision::WaitForNextWindow,
        !lookup_failed && markets_found ==> r == FetchDecision::UseMarkets,
        !lookup_failed && !markets_found && elapsed_secs < MARKET_MAX_RETRY_SECS ==> r
            == FetchDecision::RetryAfter(MARKET_RETRY_SECS),
        !lookup_failed && !markets_found && elapsed_secs >= MARKET_MAX_RETRY_SECS ==> r
            == FetchDecision::WaitForNextWindow,
{
    if lookup_failed {
        FetchDecision::WaitForNextWindow
    } else if markets_found {
        FetchDecision::UseMarkets
    } else if elapsed_secs < MARKET_MAX_RETRY_SECS {
        FetchDecision::RetryAfter(MARKET_RETRY_SECS)
    } else {
        FetchDecision::WaitForNextWindow
    }
}

/// Schedules market refresh around window boundaries.
pub struct MarketScheduler {
    pub discoverer: MarketDiscoverer,
    pub refresh_advance_secs: u64,
}

impl MarketScheduler {
    pub fn new(discoverer: MarketDiscoverer, refresh_advance_secs: u64) -> (r: Self)
        ensures
            r.refresh_advance_secs == refresh_advance_secs,
            r.discoverer == discoverer,
    {
        MarketScheduler { discoverer, refresh_advance_secs }
    }

    /// Seconds to sleep so as to wake `refresh_advance_secs` before the
    /// next window boundary (never negative).
    pub fn calculate_wait_time(&self, now: u64) -> (r: u64)
        requires
            now + FIVE_MIN_SECS <= u64::MAX,
        ensures
            r == if spec_window_start(now as int) + FIVE_MIN_SECS - now
                > self.refresh_advance_secs {
                spec_window_start(now as int) + FIVE_MIN_SECS - now - self.refresh_advance_secs
            } else {
                0
            },
    {
        let next = MarketDiscoverer::calculate_next_window_timestamp(now);
        let until_next = next - now;
        if until_next > self.refresh_advance_secs {
            until_next - self.refresh_advance_secs
        } else {
            0
        }
    }
}

} // verus!
