//! Verified core of an arbitrage engine for five-minute binary prediction
//! markets.
//!
//! The engine watches the paired order books of Up/Down outcome tokens in
//! 300-second trading windows, detects when both best asks together cost
//! less than the $1.00 redemption, and manages the risk state around the
//! resulting two-leg trades: exposure accounting, fill classification and
//! recovery, position rebalancing, periodic settlement of matched
//! holdings, and the end-of-window unwind.
//!
//! * [`window`] — the window clock and market-fetch scheduling decisions.
//! * [`books`] — the order-book cache and Yes/No pairer.
//! * [`detector`] — arbitrage detection and the pre-trade admission gate.
//! * [`direction`] — per-market price direction for slippage choice.
//! * [`tracker`] — positions and exposure, the single source of truth.
//! * [`manager`] / [`recovery`] — the order-pair fill state machine and
//!   its (currently no-op) recovery policy.
//! * [`hedge`] — bookkeeping for the dormant hedge-exit path.
//! * [`balancer`] — per-market order-cancellation planning.
//! * [`settlement`] — selection and accounting of on-chain merges.
//! * [`winddown`] — the once-per-window unwind sequencer.
//! * [`license`] — encrypted expiry tokens gating the process.
//!
//! The library models prices, sizes and exposure as fixed-point integers
//! (see [`units`]) and keeps every identifier (market, token, order,
//! pair) as a plain `u64`.  The surrounding process performs all I/O —
//! market lookup, the book stream, order submission, settlement calls —
//! and translates between these plain values and the exchange's own
//! types at that boundary; every decision the engine takes on the values
//! is made, and proved, here.

pub mod balancer;
pub mod books;
pub mod detector;
pub mod direction;
pub mod hedge;
pub mod license;
pub mod manager;
pub mod market;
pub mod recovery;
pub mod settlement;
pub mod tracker;
pub mod units;
pub mod winddown;
pub mod window;

pub use window::MarketDiscoverer;
