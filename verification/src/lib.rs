//! A rate-paced congestion controller.
//!
//! Instead of reacting to loss signals, the controller keeps an
//! exponentially-weighted moving average of measured round-trip times and
//! derives from it the congestion window that sustains a fixed, externally
//! configured target rate.

pub mod congestion;
