//! The failures that the engine reports.

use vstd::prelude::*;
use vstd::string::*;

verus! {

/// Why an operation on a simulation failed.
#[derive(Clone, Debug, PartialEq, Eq)]
pub enum SimulationError {
    /// No model of the simulation has the id that was asked for.
    ModelNotFound,
    /// A connector names a model that the simulation does not hold.
    InvalidModelConfiguration,
    /// A pending message is addressed to a model that the simulation does not hold.
    InvalidMessage,
    /// Several models share an id; the ids that occur more than once are listed.
    DuplicateModelId(Vec<String>),
    /// A model's event handler failed; `reason` is the model's own account.
    ModelEventFailure { model_id: String, reason: String },
}

pub type SimulationResult<T> = Result<T, SimulationError>;

/// A failure, with the text that it holds.
pub enum ErrorView {
    ModelNotFound,
    InvalidModelConfiguration,
    InvalidMessage,
    DuplicateModelId(Seq<Seq<char>>),
    ModelEventFailure { model_id: Seq<char>, reason: Seq<char> },
}

impl View for SimulationError {
    type V = ErrorView;

    open spec fn view(&self) -> ErrorView {
        match self {
            SimulationError::ModelNotFound => ErrorView::ModelNotFound,
            SimulationError::InvalidModelConfiguration => ErrorView::InvalidModelConfiguration,
            SimulationError::InvalidMessage => ErrorView::InvalidMessage,
            SimulationError::DuplicateModelId(ids) => ErrorView::DuplicateModelId(ids.deep_view()),
            SimulationError::ModelEventFailure { model_id, reason } => {
                ErrorView::ModelEventFailure { model_id: model_id@, reason: reason@ }
            },
        }
    }
}

/// The items of `items`, with `", "` between neighbours.
pub open spec fn comma_separated(items: Seq<Seq<char>>) -> Seq<char>
    decreases items.len(),
{
    if items.len() == 0 {
        Seq::empty()
    } else if items.len() == 1 {
        items[0]
    } else {
        comma_separated(items.drop_last()) + ", "@ + items.last()
    }
}

impl ErrorView {
    /// The sentence that describes the failure.
    pub open spec fn sentence(self) -> Seq<char> {
        match self {
            ErrorView::ModelNotFound => "The requested model was not found in the simulation"@,
            ErrorView::InvalidModelConfiguration =>
                "An invalid model configuration was encountered during simulation"@,
            ErrorView::InvalidMessage => "An invalid message was encountered during simulation"@,
            ErrorView::DuplicateModelId(ids) => "Several models share an id: "@ + comma_separated(
                ids,
            ),
            ErrorView::ModelEventFailure { model_id, reason } => "The model "@ + model_id
                + " failed to handle an event: "@ + reason,
        }
    }
}

impl SimulationError {
    /// A sentence that describes the failure.
    pub fn to_string(&self) -> (text: String)
        ensures
            text@ == self@.sentence(),
    {
        match self {
            SimulationError::ModelNotFound => String::from_str(
                "The requested model was not found in the simulation",
            ),
            SimulationError::InvalidModelConfiguration => String::from_str(
                "An invalid model configuration was encountered during simulation",
            ),
            SimulationError::InvalidMessage => String::from_str(
                "An invalid message was encountered during simulation",
            ),
            SimulationError::DuplicateModelId(ids) => {
                let mut text = String::from_str("Several models share an id: ");
                let listed = join_with_commas(ids);
                text.append(listed.as_str());
                text
            },
            SimulationError::ModelEventFailure { model_id, reason } => {
                let mut text = String::from_str("The model ");
                text.append(model_id.as_str());
                text.append(" failed to handle an event: ");
                text.append(reason.as_str());
                text
            },
        }
    }
}

/// Writes the strings of `items` one after another, separated by `", "`.
pub fn join_with_commas(items: &Vec<String>) -> (text: String)
    ensures
        text@ == comma_separated(items.deep_view()),
{
    let mut text = String::new();
    let mut i: usize = 0;
    while i < items.len()
        invariant
            i <= items.len(),
            text@ == comma_separated(items.deep_view().take(i as int)),
        decreases items.len() - i,
    {
        proof {
            let done = items.deep_view().take(i as int);
            let next = items.deep_view().take(i + 1);
            assert(next.drop_last() =~= done);
            assert(next.last() == items@[i as int]@);
            assert(text@ + items@[i as int]@ =~= "".view() + text@ + items@[i as int]@) by {
                reveal_strlit("");
            }
        }
        if i > 0 {
            text.append(", ");
        }
        text.append(items[i].as_str());
        i = i + 1;
    }
    assert(items.deep_view().take(items.len() as int) =~= items.deep_view());
    text
}

} // verus!
