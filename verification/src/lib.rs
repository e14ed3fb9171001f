//! Streaming technical-analysis indicators with machine-checked contracts.
//!
//! Every indicator is fed one observation at a time and never rescans its
//! history, except where the value it tracks leaves its window.
//!
//! The library holds no floating-point number. Samples that are only ever
//! compared travel as `i64`. Samples that enter arithmetic are stored and
//! handed back as they came, whatever their type: at each update the caller
//! is told which rule of the recurrence applies, and on which stored inputs,
//! and does the arithmetic. What the rules compute is stated, and proved, over
//! the real numbers.

pub mod errors;
pub mod indicators;
pub mod smoothing;
pub mod text;
pub mod window;
