//! The controller capability interface: a plugin that drives and observes
//! the external target.

use vstd::prelude::*;

use crate::resource::ResourceData;

verus! {

/// Identifies a controller within one context.
pub type ControllerId = String;

/// A decoded raster image captured from the target.
pub struct ImageData {
    pub width: u32,
    pub height: u32,
    pub pixels: Vec<u8>,
}

/// The kinds of captured output a controller can produce. An open set:
/// new kinds are additive variants.
#[non_exhaustive]
pub enum ControllerData {
    Image(ImageData),
}

impl From<ImageData> for ControllerData {
    fn from(value: ImageData) -> (r: Self)
        ensures
            r == ControllerData::Image(value),
    {
        ControllerData::Image(value)
    }
}

impl vstd::std_specs::convert::FromSpecImpl<ImageData> for ControllerData {
    open spec fn obeys_from_spec() -> bool {
        true
    }

    open spec fn from_spec(value: ImageData) -> Self {
        ControllerData::Image(value)
    }
}

/// A controller drives the external target: `exec_output` performs an
/// observation (such as a capture) and `exec_input` performs an effect
/// (such as a tap). `init` is called lazily by the owning wrapper.
pub trait Controller: Send + Sync {
    fn name(&self) -> ControllerId;

    fn init(&self, init_config: &ResourceData) -> Result<(), ControllerError>;

    fn exec_output(&self, action: &ResourceData) -> Result<ControllerData, CustomControllerError>;

    fn exec_input(&self, action: &ResourceData) -> Result<(), CustomControllerError>;
}

/// An error at the controller boundary.
#[derive(Debug, PartialEq)]
pub enum ControllerError {
    /// No controller is registered under the id.
    ControllerNotFound { id: ControllerId },
    /// An error passed through from the plugin.
    Custom { source: CustomControllerError },
}

/// An error reported by a controller plugin. `Fatal` halts the whole run;
/// `Common` only eliminates the current candidate from a race.
#[derive(Debug, PartialEq)]
pub enum CustomControllerError {
    InvalidAction { action: Option<ResourceData> },
    Fatal { message: String },
    Common { message: String },
}

impl From<CustomControllerError> for ControllerError {
    fn from(value: CustomControllerError) -> (r: Self)
        ensures
            r == (ControllerError::Custom { source: value }),
    {
        ControllerError::Custom { source: value }
    }
}

impl vstd::std_specs::convert::FromSpecImpl<CustomControllerError> for ControllerError {
    open spec fn obeys_from_spec() -> bool {
        true
    }

    open spec fn from_spec(value: CustomControllerError) -> Self {
        ControllerError::Custom { source: value }
    }
}

impl ControllerError {
    /// Whether continuing the run after this error would be meaningless:
    /// everything but a `Common` plugin error.
    pub open spec fn spec_is_fatal(&self) -> bool {
        !(self matches ControllerError::Custom { source: CustomControllerError::Common { .. } })
    }

    /// Executable fatality test; see [`ControllerError::spec_is_fatal`].
    pub fn is_fatal(&self) -> (r: bool)
        ensures
            r == self.spec_is_fatal(),
    {
        !matches!(self, ControllerError::Custom { source: CustomControllerError::Common { .. } })
    }
}

} // verus!
