//! Sample controllers: they accept or check actions and hand out a fixed
//! image instead of driving a device.

use vstd::prelude::*;

use crate::controller::{
    Controller, ControllerData, ControllerError, ControllerId, CustomControllerError, ImageData,
};
use crate::resource::{value_eq, ResourceData};

verus! {

/// The part of a sample controller's configuration shared by every kind.
pub struct BaseControllerConfig {
    pub id: String,
}

/// The configuration of [`SimpleControllerWithConfig`].
pub struct SimpleControllerConfig {
    pub base: Option<BaseControllerConfig>,
    pub port: String,
}

/// A sample controller configuration of any kind.
pub enum ControllerConfig {
    Simple(SimpleControllerConfig),
}

impl SimpleControllerConfig {
    /// The configuration a [`ControllerConfig`] holds, when it is of this
    /// kind.
    pub fn from_config(value: ControllerConfig) -> (r: Result<SimpleControllerConfig, ()>)
        ensures
            r is Ok,
    {
        match value {
            ControllerConfig::Simple(config) => Ok(config),
        }
    }

    /// The configuration written out as a value, as the context hands it
    /// back to `init`.
    pub fn to_resource(&self) -> ResourceData {
        let base_value = match &self.base {
            Some(base) => ResourceData::Object(
                vec![(id_key(), ResourceData::Text(base.id.clone()))],
            ),
            None => ResourceData::Null,
        };
        ResourceData::Object(
            vec![
                (base_key(), base_value),
                (port_key(), ResourceData::Text(self.port.clone())),
            ],
        )
    }
}

/// The `"id"` key of a base configuration.
fn id_key() -> String {
    let s: &str = "id";
    s.to_owned()
}

/// The `"base"` key of a sample configuration.
fn base_key() -> String {
    let s: &str = "base";
    s.to_owned()
}

/// The `"port"` key of a simple controller configuration.
fn port_key() -> String {
    let s: &str = "port";
    s.to_owned()
}

/// The fixed capture every sample controller hands out: a tiny raster
/// image.
fn sample_image() -> ImageData {
    ImageData { width: 2, height: 2, pixels: vec![0u8, 0u8, 0u8, 255u8] }
}

/// A controller that remembers the configuration it was built with and
/// checks that `init` hands the same configuration back; a different one
/// is refused as an invalid action.
pub struct SimpleControllerWithConfig {
    config: SimpleControllerConfig,
}

impl SimpleControllerWithConfig {
    pub fn new(config: SimpleControllerConfig) -> Self {
        SimpleControllerWithConfig { config }
    }
}

impl Controller for SimpleControllerWithConfig {
    fn name(&self) -> ControllerId {
        let s: &str = "controller_simple_with_config";
        s.to_owned()
    }

    fn init(&self, init_config: &ResourceData) -> Result<(), ControllerError> {
        let expected = self.config.to_resource();
        if value_eq(init_config, &expected) {
            Ok(())
        } else {
            Err(
                ControllerError::Custom {
                    source: CustomControllerError::InvalidAction {
                        action: Some(init_config.clone()),
                    },
                },
            )
        }
    }

    fn exec_output(&self, _action: &ResourceData) -> Result<ControllerData, CustomControllerError> {
        Ok(ControllerData::Image(sample_image()))
    }

    fn exec_input(&self, _action: &ResourceData) -> Result<(), CustomControllerError> {
        Ok(())
    }
}

/// A controller that accepts everything and does nothing.
pub struct DummyController {}

impl DummyController {
    pub fn new() -> Self {
        DummyController {  }
    }
}

impl Default for DummyController {
    fn default() -> (r: Self)
        ensures
            r == (DummyController {  }),
    {
        DummyController::new()
    }
}

impl Controller for DummyController {
    fn name(&self) -> ControllerId {
        let s: &str = "dummy_controller";
        s.to_owned()
    }

    fn init(&self, _init_config: &ResourceData) -> Result<(), ControllerError> {
        Ok(())
    }

    fn exec_output(&self, _action: &ResourceData) -> Result<ControllerData, CustomControllerError> {
        Ok(ControllerData::Image(sample_image()))
    }

    fn exec_input(&self, _action: &ResourceData) -> Result<(), CustomControllerError> {
        Ok(())
    }
}

/// A controller whose output is the fixed image; like
/// [`DummyController`], but named for image-output wiring.
pub struct SimpleImageController {}

impl SimpleImageController {
    pub fn new() -> Self {
        SimpleImageController {  }
    }
}

impl Default for SimpleImageController {
    fn default() -> (r: Self)
        ensures
            r == (SimpleImageController {  }),
    {
        SimpleImageController::new()
    }
}

impl Controller for SimpleImageController {
    fn name(&self) -> ControllerId {
        let s: &str = "controller_simple_image";
        s.to_owned()
    }

    fn init(&self, _init_config: &ResourceData) -> Result<(), ControllerError> {
        Ok(())
    }

    fn exec_output(&self, _action: &ResourceData) -> Result<ControllerData, CustomControllerError> {
        Ok(ControllerData::Image(sample_image()))
    }

    fn exec_input(&self, _action: &ResourceData) -> Result<(), CustomControllerError> {
        Ok(())
    }
}

/// A controller that checks the input action the scheduler hands it: the
/// merge of the accept-all recognizer's result with a task-level override
/// naming a click. Anything else is refused as an invalid action.
pub struct ControllerWithInputAndOutputAction {}

impl ControllerWithInputAndOutputAction {
    pub fn new() -> Self {
        ControllerWithInputAndOutputAction {  }
    }

    /// The input action this controller expects: the recognizer's
    /// `{"value": "Accept_All"}` with `{"name": "click"}` merged in.
    pub fn expected_input_action() -> ResourceData {
        let value_k: &str = "value";
        let accept: &str = "Accept_All";
        let name_k: &str = "name";
        let click: &str = "click";
        ResourceData::Object(
            vec![
                (value_k.to_owned(), ResourceData::Text(accept.to_owned())),
                (name_k.to_owned(), ResourceData::Text(click.to_owned())),
            ],
        )
    }
}

impl Default for ControllerWithInputAndOutputAction {
    fn default() -> (r: Self)
        ensures
            r == (ControllerWithInputAndOutputAction {  }),
    {
        ControllerWithInputAndOutputAction::new()
    }
}

impl Controller for ControllerWithInputAndOutputAction {
    fn name(&self) -> ControllerId {
        let s: &str = "controller_with_input_and_output_action";
        s.to_owned()
    }

    fn init(&self, _init_config: &ResourceData) -> Result<(), ControllerError> {
        Ok(())
    }

    fn exec_output(&self, _action: &ResourceData) -> Result<ControllerData, CustomControllerError> {
        Ok(ControllerData::Image(sample_image()))
    }

    fn exec_input(&self, action: &ResourceData) -> Result<(), CustomControllerError> {
        let expected = ControllerWithInputAndOutputAction::expected_input_action();
        if value_eq(action, &expected) {
            Ok(())
        } else {
            Err(CustomControllerError::InvalidAction { action: Some(action.clone()) })
        }
    }
}

} // verus!
