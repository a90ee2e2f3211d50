//! Fixed-point units used throughout the library.
//!
//! * A price is a `u64` in ten-thousandths of a dollar: `PRICE_SCALE`
//!   (10_000) is $1.00, so a price of 4_800 is $0.48.  Outcome-token
//!   prices never exceed $1.00, but nothing here depends on that bound
//!   unless a contract states it.
//! * A size is a `u64` in hundredths of a share: `SIZE_UNIT_PER_SHARE`
//!   (100) is one share, and 1 is the minimum tradable unit (0.01).
//! * A cost (price times size) is therefore in units of 10^-6 dollars.
//! * Dimensionless ratios (thresholds, percentages) share `PRICE_SCALE`,
//!   so 1_000 is 0.10 and a profit percentage of 20_000 reads as 2.00%.

use vstd::prelude::*;

verus! {

/// Number of price units in one dollar; also the scale of ratios.
pub const PRICE_SCALE: u64 = 10000;

/// Number of size units in one share.
pub const SIZE_UNIT_PER_SHARE: u64 = 100;

} // verus!
