//! Fixed-point durations: a 32-bit tick count tagged, in its type, with the
//! exact rational number of seconds that one tick lasts.
//!
//! Durations of different tick periods are compared exactly, with integer
//! arithmetic only. The pair of periods is reduced to two cross multipliers,
//! and the tick counts are compared after one checked multiplication each.
//! Sums and differences are exact or refused.

pub mod arithmetic;
pub mod duration;
pub mod gcd;
pub mod helpers;
pub mod ratio;

pub use arithmetic::ArithmeticError;
pub use duration::Duration;
pub use helpers::Helpers;
pub use ratio::Ratio;
