use vstd::prelude::*;
use crate::averages::{average_for_mean, mean_average, Average};
use crate::error::StatsError;
use crate::sample::{is_same_number, is_zero, is_zero_pattern, same_number};

verus! {

/// The line `y = intercept + coefficient * x`, each number a binary32 pattern.
#[derive(Clone, Copy, Debug, PartialEq, Eq, Structural)]
pub struct Parameters {
    pub intercept: u32,
    pub coefficient: u32,
}

/// The two states of a model.  Only a fitted model has parameters.
#[derive(Clone, Copy, Debug, PartialEq, Eq, Structural)]
pub enum ModelState {
    Unfit,
    Fit(Parameters),
}

/// What the arithmetic gave for a pair of sequences: the variance of the
/// x values about their mean, and the line through the points, whose
/// coefficient is the covariance over that variance.
#[derive(Clone, Copy, Debug, PartialEq, Eq, Structural)]
pub struct Estimate {
    pub x_variance: u32,
    pub parameters: Parameters,
}

/// What is needed to evaluate a model on a test set that is not empty.
#[derive(Clone, Copy, Debug, PartialEq, Eq, Structural)]
pub struct Evaluation {
    /// The line to predict with.
    pub parameters: Parameters,
    /// How the squared errors are averaged before the root is taken.
    pub average: Average,
}

/// A simple linear regression model.  It starts unfit, becomes fit by a
/// successful `fit`, and stays fit under later ones.
#[derive(Clone, Copy, Debug)]
pub struct LinearRegression {
    state: ModelState,
}

/// Whether all samples are one and the same number.
pub open spec fn is_constant(x: Seq<u32>) -> bool {
    forall|i: int, j: int| 0 <= i < x.len() && 0 <= j < x.len() ==> same_number(x[i], x[j])
}

/// Why a fit is refused before any arithmetic is done, if it is.
///
/// A single point is degenerate whatever it holds, since the variance of
/// fewer than two samples is zero; so are several x values that are all the
/// same number.
pub open spec fn fit_refusal(x: Seq<u32>, y_len: nat) -> Option<StatsError> {
    if x.len() != y_len {
        Some(StatsError::LengthMismatch)
    } else if x.len() == 0 {
        Some(StatsError::EmptyInput)
    } else if x.len() == 1 || is_constant(x) {
        Some(StatsError::DegenerateInput)
    } else {
        None
    }
}

/// The parameters that a fit stores, or why it stores none.
///
/// The input is degenerate when it is a single point, when the x values do
/// not vary, and also when their variance was computed as zero although
/// they do.
pub open spec fn fit_outcome(x: Seq<u32>, y_len: nat, estimate: Estimate) -> Result<
    Parameters,
    StatsError,
> {
    match fit_refusal(x, y_len) {
        Some(error) => Err(error),
        None => if is_zero(estimate.x_variance) {
            Err(StatsError::DegenerateInput)
        } else {
            Ok(estimate.parameters)
        },
    }
}

/// The parameters of a model in the given state.
pub open spec fn parameters_spec(state: ModelState) -> Result<Parameters, StatsError> {
    match state {
        ModelState::Unfit => Err(StatsError::ModelNotFit),
        ModelState::Fit(parameters) => Ok(parameters),
    }
}

/// The parameters with which `count` values are predicted one by one.  A
/// model that was never fitted predicts no list, not even an empty one; a
/// fitted model needs no parameters for an empty list, and answers `None`.
pub open spec fn list_parameters_spec(state: ModelState, count: nat) -> Result<
    Option<Parameters>,
    StatsError,
> {
    match state {
        ModelState::Unfit => Err(StatsError::ModelNotFit),
        ModelState::Fit(parameters) => if count == 0 {
            Ok(None)
        } else {
            Ok(Some(parameters))
        },
    }
}

/// How a model in the given state is evaluated on `x_len` test values with
/// `y_len` observations.  Test sets of different lengths are refused first,
/// then a model that was never fitted, whatever the lengths.  `Ok(None)`
/// stands for the error zero that a fitted model has on an empty test set.
pub open spec fn evaluation_spec(state: ModelState, x_len: nat, y_len: nat) -> Result<
    Option<Evaluation>,
    StatsError,
> {
    if x_len != y_len {
        Err(StatsError::LengthMismatch)
    } else {
        match list_parameters_spec(state, x_len) {
            Err(error) => Err(error),
            Ok(None) => Ok(None),
            Ok(Some(parameters)) => Ok(
                Some(Evaluation { parameters, average: mean_average(x_len) }),
            ),
        }
    }
}

/// Whether all samples are one and the same number.
pub fn is_constant_sequence(x: &Vec<u32>) -> (constant: bool)
    ensures
        constant == is_constant(x@),
{
    let mut i: usize = 0;
    while i < x.len()
        invariant
            i <= x.len(),
            forall|j: int| 0 <= j < i ==> same_number(x@[0], #[trigger] x@[j]),
        decreases x.len() - i,
    {
        if !is_same_number(x[0], x[i]) {
            return false;
        }
        i += 1;
    }
    true
}

/// Checks the input of a fit as far as it can be checked without arithmetic.
pub fn check_fit_input(x: &Vec<u32>, y_len: usize) -> (checked: Result<(), StatsError>)
    ensures
        match fit_refusal(x@, y_len as nat) {
            Some(error) => checked == Err::<(), StatsError>(error),
            None => checked is Ok,
        },
{
    if x.len() != y_len {
        Err(StatsError::LengthMismatch)
    } else if x.len() == 0 {
        Err(StatsError::EmptyInput)
    } else if x.len() == 1 || is_constant_sequence(x) {
        Err(StatsError::DegenerateInput)
    } else {
        Ok(())
    }
}

impl View for LinearRegression {
    type V = ModelState;

    closed spec fn view(&self) -> ModelState {
        self.state
    }
}

impl LinearRegression {
    /// A model that has not been fitted.
    pub fn new() -> (model: LinearRegression)
        ensures
            model@ == ModelState::Unfit,
    {
        LinearRegression { state: ModelState::Unfit }
    }

    /// Whether the model has been fitted.
    pub fn is_fit(&self) -> (fit: bool)
        ensures
            fit == (self@ is Fit),
    {
        match self.state {
            ModelState::Unfit => false,
            ModelState::Fit(_) => true,
        }
    }

    /// Fits the model to the points `(x[i], y[i])`, of which the caller hands
    /// in the x values, the number of y values, and what the arithmetic gave
    /// for them.
    ///
    /// Sequences of different lengths are refused with `LengthMismatch`,
    /// empty ones with `EmptyInput`, and a single point, x values that do
    /// not vary, or x values whose variance came out as zero, with
    /// `DegenerateInput`.  A refused fit
    /// leaves the model as it was; a successful one stores the parameters,
    /// in place of earlier ones if there were any.
    pub fn fit(&mut self, x: &Vec<u32>, y_len: usize, estimate: Estimate) -> (fitted: Result<
        (),
        StatsError,
    >)
        ensures
            match fit_outcome(x@, y_len as nat, estimate) {
                Ok(parameters) => fitted is Ok && final(self)@ == ModelState::Fit(parameters),
                Err(error) => fitted == Err::<(), StatsError>(error) && final(self)@ == old(
                    self,
                )@,
            },
    {
        match check_fit_input(x, y_len) {
            Err(error) => {
                return Err(error);
            },
            Ok(_) => {},
        }
        if is_zero_pattern(estimate.x_variance) {
            return Err(StatsError::DegenerateInput);
        }
        self.state = ModelState::Fit(estimate.parameters);
        Ok(())
    }

    /// The parameters with which one value is predicted: the prediction for
    /// `x` is `intercept + coefficient * x`.  A model that was never fitted
    /// has none and answers `ModelNotFit`.
    pub fn parameters(&self) -> (parameters: Result<Parameters, StatsError>)
        ensures
            parameters == parameters_spec(self@),
    {
        match self.state {
            ModelState::Unfit => Err(StatsError::ModelNotFit),
            ModelState::Fit(parameters) => Ok(parameters),
        }
    }

    /// The parameters with which `count` values are predicted, each as a
    /// single one is and in their order.  A model that was never fitted
    /// answers `ModelNotFit` for every list, the empty one too, and no part
    /// of a list is predicted.  A fitted model answers `None` for an empty
    /// list, which needs no parameters.
    pub fn list_parameters(&self, count: usize) -> (parameters: Result<
        Option<Parameters>,
        StatsError,
    >)
        ensures
            parameters == list_parameters_spec(self@, count as nat),
    {
        match self.parameters() {
            Err(error) => Err(error),
            Ok(parameters) => if count == 0 {
                Ok(None)
            } else {
                Ok(Some(parameters))
            },
        }
    }

    /// How the model is evaluated on `x_len` test values against `y_len`
    /// observations: the predictions are made, and the root of their mean
    /// squared error is taken.  Test sets of different lengths are refused
    /// first, then a model that was never fitted, whatever the lengths.  On
    /// an empty test set a fitted model answers `None`: its error is zero.
    pub fn evaluation(&self, x_len: usize, y_len: usize) -> (evaluation: Result<
        Option<Evaluation>,
        StatsError,
    >)
        ensures
            evaluation == evaluation_spec(self@, x_len as nat, y_len as nat),
    {
        if x_len != y_len {
            return Err(StatsError::LengthMismatch);
        }
        let parameters = match self.list_parameters(x_len) {
            Err(error) => {
                return Err(error);
            },
            Ok(None) => {
                return Ok(None);
            },
            Ok(Some(parameters)) => parameters,
        };
        Ok(Some(Evaluation { parameters, average: average_for_mean(x_len) }))
    }
}

/// A model that was never fitted predicts nothing: neither one value, nor a
/// list of any length, nor is it evaluated on test sets of any one length.
/// A fit of sequences of different lengths is refused for that, and a fit of
/// as many y values to a single x value, or to several that are all the same
/// number, is refused as degenerate, whatever the arithmetic gave.
pub proof fn lemma_model_refusals(x: Seq<u32>, y_len: nat, estimate: Estimate, count: nat)
    ensures
        parameters_spec(ModelState::Unfit) == Err::<Parameters, StatsError>(StatsError::ModelNotFit),
        list_parameters_spec(ModelState::Unfit, count) == Err::<Option<Parameters>, StatsError>(
            StatsError::ModelNotFit,
        ),
        evaluation_spec(ModelState::Unfit, count, count) == Err::<Option<Evaluation>, StatsError>(
            StatsError::ModelNotFit,
        ),
        x.len() != y_len ==> fit_outcome(x, y_len, estimate) == Err::<Parameters, StatsError>(
            StatsError::LengthMismatch,
        ),
        x.len() == y_len && y_len > 0 && (y_len == 1 || is_constant(x)) ==> fit_outcome(
            x,
            y_len,
            estimate,
        ) == Err::<Parameters, StatsError>(StatsError::DegenerateInput),
{
}

} // verus!
