use little_math::StatsError;

#[test]
fn every_error_has_its_own_message() {
    let all = [
        StatsError::EmptyInput,
        StatsError::LengthMismatch,
        StatsError::ModelNotFit,
        StatsError::DegenerateInput,
        StatsError::MalformedCoordinate,
        StatsError::InvalidValue,
    ];
    for (i, a) in all.iter().enumerate() {
        assert!(!a.message().is_empty());
        for (j, b) in all.iter().enumerate() {
            assert_eq!(i == j, a.message() == b.message());
        }
    }
}

#[test]
fn messages_name_the_violated_precondition() {
    assert_eq!(StatsError::EmptyInput.message(), "input must hold at least one element");
    assert_eq!(StatsError::LengthMismatch.message(), "sequences must have equal lengths");
    assert_eq!(StatsError::ModelNotFit.message(), "model has not been fitted yet, call `fit` first");
    assert_eq!(
        StatsError::DegenerateInput.message(),
        "variance of the x values is zero, cannot perform regression"
    );
    assert_eq!(
        StatsError::MalformedCoordinate.message(),
        "a coordinate must have at least two components"
    );
    assert_eq!(StatsError::InvalidValue.message(), "input must not hold a NaN");
}
