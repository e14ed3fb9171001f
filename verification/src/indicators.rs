//! The indicators, one module each.

pub mod average_true_range;
pub mod exponential_moving_average;
pub mod maximum;
pub mod minimum;
pub mod true_range;
pub mod windowed_exponential_moving_average;

pub use average_true_range::AverageTrueRange;
pub use exponential_moving_average::ExponentialMovingAverage;
pub use maximum::Maximum;
pub use minimum::Minimum;
pub use true_range::TrueRange;
pub use windowed_exponential_moving_average::WindowedExponentialMovingAverage;
