//! Sample recognizers: they accept everything, or check the configuration
//! they are initialized with, instead of running real recognition.

use vstd::prelude::*;

use crate::controller::ControllerData;
use crate::recognizer::{
    CustomRecognizerError, RecognizeResult, Recognizer, RecognizerError, RecognizerId,
};
use crate::resource::{value_eq, ResourceData};

verus! {

/// The part of a sample recognizer's configuration shared by every kind.
pub struct BaseRecognizerConfig {
    pub id: String,
}

/// The configuration of [`SimpleRecognizerWithConfig`].
pub struct SimpleRecognizerConfig {
    pub base: Option<BaseRecognizerConfig>,
    pub path: String,
}

/// A sample recognizer configuration of any kind.
pub enum RecognizerConfig {
    Simple(SimpleRecognizerConfig),
}

impl SimpleRecognizerConfig {
    /// The configuration a [`RecognizerConfig`] holds, when it is of this
    /// kind.
    pub fn from_config(value: RecognizerConfig) -> (r: Result<SimpleRecognizerConfig, ()>)
        ensures
            r is Ok,
    {
        match value {
            RecognizerConfig::Simple(config) => Ok(config),
        }
    }

    /// The configuration written out as a value, as the context hands it
    /// back to `init`.
    pub fn to_resource(&self) -> ResourceData {
        let id_k: &str = "id";
        let base_k: &str = "base";
        let path_k: &str = "path";
        let base_value = match &self.base {
            Some(base) => ResourceData::Object(
                vec![(id_k.to_owned(), ResourceData::Text(base.id.clone()))],
            ),
            None => ResourceData::Null,
        };
        ResourceData::Object(
            vec![
                (base_k.to_owned(), base_value),
                (path_k.to_owned(), ResourceData::Text(self.path.clone())),
            ],
        )
    }
}

/// A recognizer that recognizes everything: it asks for an empty output
/// action and always answers `{"value": "Accept_All"}`.
pub struct AcceptAllRecognizer {}

impl AcceptAllRecognizer {
    pub fn new() -> Self {
        AcceptAllRecognizer {  }
    }

    /// The result this recognizer always produces.
    pub fn accept_all_result() -> ResourceData {
        let value_k: &str = "value";
        let accept: &str = "Accept_All";
        ResourceData::Object(vec![(value_k.to_owned(), ResourceData::Text(accept.to_owned()))])
    }
}

impl Default for AcceptAllRecognizer {
    fn default() -> (r: Self)
        ensures
            r == (AcceptAllRecognizer {  }),
    {
        AcceptAllRecognizer::new()
    }
}

impl Recognizer for AcceptAllRecognizer {
    fn name(&self) -> RecognizerId {
        let s: &str = "recognizer_AcceptAll";
        s.to_owned()
    }

    fn init(&self, _resource: &ResourceData) -> Result<(), RecognizerError> {
        Ok(())
    }

    fn require_input(&self) -> Option<ResourceData> {
        Some(ResourceData::Object(Vec::new()))
    }

    fn exec(&self, _action: Option<&ResourceData>, _data: ControllerData) -> Result<
        RecognizeResult,
        CustomRecognizerError,
    > {
        Ok(AcceptAllRecognizer::accept_all_result())
    }
}

/// A recognizer that remembers the configuration it was built with and
/// checks that `init` hands the same configuration back; a different one
/// is refused as an invalid action. It requires no output action and
/// recognizes everything with an empty result.
pub struct SimpleRecognizerWithConfig {
    config: SimpleRecognizerConfig,
}

impl SimpleRecognizerWithConfig {
    pub fn new(config: SimpleRecognizerConfig) -> Self {
        SimpleRecognizerWithConfig { config }
    }
}

impl Recognizer for SimpleRecognizerWithConfig {
    fn name(&self) -> RecognizerId {
        let s: &str = "recognizer_simple_with_config";
        s.to_owned()
    }

    fn init(&self, resource: &ResourceData) -> Result<(), RecognizerError> {
        let expected = self.config.to_resource();
        if value_eq(resource, &expected) {
            Ok(())
        } else {
            Err(
                RecognizerError::Custom {
                    source: CustomRecognizerError::InvalidAction {
                        action: Some(resource.clone()),
                    },
                },
            )
        }
    }

    fn require_input(&self) -> Option<ResourceData> {
        None
    }

    fn exec(&self, _action: Option<&ResourceData>, _data: ControllerData) -> Result<
        RecognizeResult,
        CustomRecognizerError,
    > {
        Ok(ResourceData::Object(Vec::new()))
    }
}

} // verus!
