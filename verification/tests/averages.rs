use little_math::averages::{
    average_for_covariance, average_for_error, average_for_mean, average_for_variance, Average,
};
use little_math::StatsError;

#[test]
fn mean_divides_by_the_length() {
    assert_eq!(average_for_mean(1), Average::Over(1));
    assert_eq!(average_for_mean(4), Average::Over(4));
    assert_eq!(average_for_mean(usize::MAX), Average::Over(usize::MAX));
}

#[test]
fn mean_of_nothing_is_zero_by_convention() {
    assert_eq!(average_for_mean(0), Average::Zero);
}

#[test]
fn variance_divides_by_one_less_than_the_length() {
    assert_eq!(average_for_variance(2), Average::Over(1));
    assert_eq!(average_for_variance(5), Average::Over(4));
    assert_eq!(average_for_variance(usize::MAX), Average::Over(usize::MAX - 1));
}

#[test]
fn variance_of_fewer_than_two_is_zero_by_convention() {
    assert_eq!(average_for_variance(0), Average::Zero);
    assert_eq!(average_for_variance(1), Average::Zero);
}

#[test]
fn covariance_divides_by_the_length() {
    assert_eq!(average_for_covariance(1, 1), Ok(Average::Over(1)));
    assert_eq!(average_for_covariance(5, 5), Ok(Average::Over(5)));
}

#[test]
fn covariance_of_nothing_is_zero_by_convention() {
    assert_eq!(average_for_covariance(0, 0), Ok(Average::Zero));
}

#[test]
fn covariance_refuses_different_lengths() {
    assert_eq!(average_for_covariance(3, 2), Err(StatsError::LengthMismatch));
    assert_eq!(average_for_covariance(0, 1), Err(StatsError::LengthMismatch));
    assert_eq!(average_for_covariance(2, 1), Err(StatsError::LengthMismatch));
}

#[test]
fn error_divides_by_the_length() {
    assert_eq!(average_for_error(4, 4), Ok(Average::Over(4)));
    assert_eq!(average_for_error(0, 0), Ok(Average::Zero));
}

#[test]
fn error_refuses_different_lengths() {
    assert_eq!(average_for_error(4, 3), Err(StatsError::LengthMismatch));
    assert_eq!(average_for_error(0, 3), Err(StatsError::LengthMismatch));
}

#[test]
fn covariance_and_variance_differ_in_the_divisor_alone() {
    for n in 2..50usize {
        assert_eq!(average_for_covariance(n, n), Ok(Average::Over(n)));
        assert_eq!(average_for_variance(n), Average::Over(n - 1));
    }
}

#[test]
fn no_average_divides_by_zero() {
    for n in 0..50usize {
        assert_ne!(average_for_mean(n), Average::Over(0));
        assert_ne!(average_for_variance(n), Average::Over(0));
        assert_ne!(average_for_covariance(n, n), Ok(Average::Over(0)));
        assert_ne!(average_for_error(n, n), Ok(Average::Over(0)));
    }
}
