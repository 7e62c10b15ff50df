//! The recognizer capability interface: a plugin that interprets a
//! controller's output and decides what was recognized.

use vstd::prelude::*;

use crate::controller::ControllerData;
use crate::resource::ResourceData;

verus! {

/// Identifies a recognizer within one context.
pub type RecognizerId = String;

/// What a recognizer produced; after merging with the task's input-action
/// override it becomes the controller's next input action.
pub type RecognizeResult = ResourceData;

/// A recognizer consumes a controller's output plus a task-supplied
/// parameter. `require_input` declares the output action this recognizer
/// needs from a controller (`None` means it accepts whatever the task
/// supplies, or nothing). `init` is called lazily by the owning wrapper.
pub trait Recognizer: Send + Sync {
    fn name(&self) -> RecognizerId;

    fn init(&self, resource: &ResourceData) -> Result<(), RecognizerError>;

    fn require_input(&self) -> Option<ResourceData>;

    fn exec(&self, action: Option<&ResourceData>, data: ControllerData) -> Result<
        RecognizeResult,
        CustomRecognizerError,
    >;
}

/// An error at the recognizer boundary.
#[derive(Debug, PartialEq)]
pub enum RecognizerError {
    /// No recognizer is registered under the id.
    RecognizerNotFound { id: RecognizerId },
    /// The incoming `ControllerData` kind is not supported by this
    /// recognizer: a wiring mistake between task and plugin registries.
    IncompatibleRecognizer { id: RecognizerId },
    /// An error passed through from the plugin.
    Custom { source: CustomRecognizerError },
}

/// An error reported by a recognizer plugin. `Fatal` halts the whole run;
/// `Common` only eliminates the current candidate from a race.
#[derive(Debug, PartialEq)]
pub enum CustomRecognizerError {
    InvalidAction { action: Option<ResourceData> },
    InvalidData,
    Fatal { message: String },
    Common { message: String },
}

impl From<CustomRecognizerError> for RecognizerError {
    fn from(value: CustomRecognizerError) -> (r: Self)
        ensures
            r == (RecognizerError::Custom { source: value }),
    {
        RecognizerError::Custom { source: value }
    }
}

impl vstd::std_specs::convert::FromSpecImpl<CustomRecognizerError> for RecognizerError {
    open spec fn obeys_from_spec() -> bool {
        true
    }

    open spec fn from_spec(value: CustomRecognizerError) -> Self {
        RecognizerError::Custom { source: value }
    }
}

impl RecognizerError {
    /// How the scheduler surfaces a recognition failure. `InvalidData`
    /// means the recognizer could not interpret the `ControllerData` kind
    /// it was given, which is the `IncompatibleRecognizer` wiring mistake
    /// under the recognizer's own id; every other plugin error passes
    /// through unchanged.
    pub open spec fn of_exec_error_model(
        id: RecognizerId,
        error: CustomRecognizerError,
    ) -> RecognizerError {
        match error {
            CustomRecognizerError::InvalidData => RecognizerError::IncompatibleRecognizer { id },
            other => RecognizerError::Custom { source: other },
        }
    }

    /// Classifies a recognition failure; see
    /// [`RecognizerError::of_exec_error_model`].
    pub fn of_exec_error(id: RecognizerId, error: CustomRecognizerError) -> (r: RecognizerError)
        ensures
            r == RecognizerError::of_exec_error_model(id, error),
    {
        match error {
            CustomRecognizerError::InvalidData => RecognizerError::IncompatibleRecognizer { id },
            other => RecognizerError::Custom { source: other },
        }
    }

    /// Whether continuing the run after this error would be meaningless:
    /// everything but a `Common` plugin error.
    pub open spec fn spec_is_fatal(&self) -> bool {
        !(self matches RecognizerError::Custom { source: CustomRecognizerError::Common { .. } })
    }

    /// Executable fatality test; see [`RecognizerError::spec_is_fatal`].
    pub fn is_fatal(&self) -> (r: bool)
        ensures
            r == self.spec_is_fatal(),
    {
        !matches!(self, RecognizerError::Custom { source: CustomRecognizerError::Common { .. } })
    }
}

} // verus!
