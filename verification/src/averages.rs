use vstd::prelude::*;
use crate::error::StatsError;

verus! {

/// How a sum over the samples becomes a statistic.
#[derive(Clone, Copy, Debug, PartialEq, Eq, Structural)]
pub enum Average {
    /// The statistic is zero by convention; nothing is summed or divided.
    Zero,
    /// The statistic is the sum divided by this count, which is never zero.
    Over(usize),
}

/// The mean of `len` samples: zero for none, else their sum over `len`.
pub open spec fn mean_average(len: nat) -> Average {
    if len == 0 {
        Average::Zero
    } else {
        Average::Over(len as usize)
    }
}

/// The sample variance of `len` samples: zero for fewer than two, else the
/// sum of the squared deviations over `len - 1`.
pub open spec fn variance_average(len: nat) -> Average {
    if len <= 1 {
        Average::Zero
    } else {
        Average::Over((len - 1) as usize)
    }
}

/// A statistic of two sequences that correspond place by place, such as
/// their covariance or the mean squared error of one against the other:
/// refused when the lengths differ, else averaged as a mean is.
pub open spec fn paired_average(left: nat, right: nat) -> Result<Average, StatsError> {
    if left != right {
        Err(StatsError::LengthMismatch)
    } else {
        Ok(mean_average(left))
    }
}

/// How the mean of `len` samples is taken.
///
/// The mean of no samples is zero: a convention, not an error.
pub fn average_for_mean(len: usize) -> (average: Average)
    ensures
        average == mean_average(len as nat),
        average matches Average::Over(n) ==> n > 0,
{
    if len == 0 {
        Average::Zero
    } else {
        Average::Over(len)
    }
}

/// How the variance of `len` samples about a given mean is taken.
///
/// The divisor is `len - 1`.  With fewer than two samples the variance is
/// zero: a convention that must not be read as "the samples do not vary".
pub fn average_for_variance(len: usize) -> (average: Average)
    ensures
        average == variance_average(len as nat),
        average matches Average::Over(n) ==> n > 0,
{
    if len <= 1 {
        Average::Zero
    } else {
        Average::Over(len - 1)
    }
}

/// How the covariance of `x_len` samples with `y_len` samples is taken.
///
/// The divisor is the length itself, not one less as for the variance.
/// Sequences of different lengths are refused; two empty ones have the
/// covariance zero.
pub fn average_for_covariance(x_len: usize, y_len: usize) -> (average: Result<Average, StatsError>)
    ensures
        average == paired_average(x_len as nat, y_len as nat),
        average matches Ok(Average::Over(n)) ==> n > 0,
{
    if x_len != y_len {
        Err(StatsError::LengthMismatch)
    } else {
        Ok(average_for_mean(x_len))
    }
}

/// How the mean squared error of `predicted_len` predictions against
/// `actual_len` observations is taken; its square root is the error.
///
/// Sequences of different lengths are refused.  The mean is taken as every
/// mean is, so nothing predicted is an error of zero.
pub fn average_for_error(actual_len: usize, predicted_len: usize) -> (average: Result<
    Average,
    StatsError,
>)
    ensures
        average == paired_average(actual_len as nat, predicted_len as nat),
        average matches Ok(Average::Over(n)) ==> n > 0,
{
    if actual_len != predicted_len {
        Err(StatsError::LengthMismatch)
    } else {
        Ok(average_for_mean(actual_len))
    }
}

/// The covariance of a sequence with itself and its variance sum the same
/// squares; they differ in the divisor alone, which is `len` for the one and
/// `len - 1` for the other.
pub proof fn lemma_covariance_and_variance_divisors(len: nat)
    requires
        2 <= len <= usize::MAX,
    ensures
        paired_average(len, len) == Ok::<Average, StatsError>(Average::Over(len as usize)),
        variance_average(len) == Average::Over((len - 1) as usize),
{
}

} // verus!
