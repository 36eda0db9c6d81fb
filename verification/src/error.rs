use vstd::prelude::*;

verus! {

/// Why an operation refused its input.
#[derive(Clone, Copy, Debug, PartialEq, Eq, Structural)]
pub enum StatsError {
    /// The operation needs at least one element.
    EmptyInput,
    /// Two sequences that must correspond element by element differ in length.
    LengthMismatch,
    /// A prediction or evaluation was asked of a model that was never fitted.
    ModelNotFit,
    /// The independent variable of a fit does not vary, so no slope exists.
    DegenerateInput,
    /// A coordinate has fewer than two components.
    MalformedCoordinate,
    /// A sample is not a number, so it has no place in the order of the samples.
    InvalidValue,
}

impl StatsError {
    /// The text of `message`, as a sequence of characters.
    pub open spec fn message_text(self) -> Seq<char> {
        match self {
            StatsError::EmptyInput => "input must hold at least one element"@,
            StatsError::LengthMismatch => "sequences must have equal lengths"@,
            StatsError::ModelNotFit => "model has not been fitted yet, call `fit` first"@,
            StatsError::DegenerateInput => "variance of the x values is zero, cannot perform regression"@,
            StatsError::MalformedCoordinate => "a coordinate must have at least two components"@,
            StatsError::InvalidValue => "input must not hold a NaN"@,
        }
    }

    /// A sentence that names the violated precondition, one for each error.
    pub fn message(&self) -> (text: String)
        ensures
            text@ == self.message_text(),
    {
        match self {
            StatsError::EmptyInput => "input must hold at least one element".to_owned(),
            StatsError::LengthMismatch => "sequences must have equal lengths".to_owned(),
            StatsError::ModelNotFit => "model has not been fitted yet, call `fit` first".to_owned(),
            StatsError::DegenerateInput => "variance of the x values is zero, cannot perform regression".to_owned(),
            StatsError::MalformedCoordinate => "a coordinate must have at least two components".to_owned(),
            StatsError::InvalidValue => "input must not hold a NaN".to_owned(),
        }
    }
}

} // verus!
