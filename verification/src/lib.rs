//! Verified core of a small statistics library.
//!
//! Everything here works on integers: lengths, counts, and the IEEE 754
//! bit patterns of the samples.  Callers that hold floating-point values
//! pass their bit patterns in and turn the selected patterns back into
//! numbers; the arithmetic on the numbers themselves is theirs.

pub mod averages;
pub mod error;
pub mod extrema;
pub mod geo;
pub mod median;
pub mod mode;
pub mod regression;
pub mod sample;
pub mod sorting;
pub mod value;

pub use error::StatsError;
pub use extrema::{max_f32, max_usize, min_f32, min_usize};
pub use median::{median_f32, Median};
pub use mode::mode;
pub use regression::LinearRegression;
