//! Lazy-initialization holders pairing a plugin instance with its base
//! configuration.

use vstd::prelude::*;

use crate::controller::{Controller, ControllerError};
use crate::recognizer::{Recognizer, RecognizerError};
use crate::resource::{merge, merged, ResourceData, ValueModel};

verus! {

/// Owns a controller plugin, its base configuration, and the
/// initialization flag. The plugin is initialized at most once per base
/// configuration; a task-level override triggers a scoped re-init that
/// leaves the stored base configuration untouched.
pub struct ControllerWrapper<C: Controller> {
    plugin: C,
    base_config: ResourceData,
    initialized: bool,
}

impl<C: Controller> ControllerWrapper<C> {
    /// The model of the stored base configuration.
    pub closed spec fn base_config_model(&self) -> ValueModel {
        self.base_config@
    }

    /// Whether the plugin's lazy initialization has succeeded.
    pub closed spec fn spec_initialized(&self) -> bool {
        self.initialized
    }

    /// The stored plugin instance.
    pub closed spec fn plugin_value(&self) -> C {
        self.plugin
    }

    /// A wrapper starts uninitialized.
    pub fn new(plugin: C, base_config: ResourceData) -> (r: Self)
        ensures
            r.base_config_model() == base_config@,
            r.plugin_value() == plugin,
            !r.spec_initialized(),
    {
        ControllerWrapper { plugin, base_config, initialized: false }
    }

    /// Whether the plugin's lazy initialization has succeeded.
    pub fn is_initialized(&self) -> (r: bool)
        ensures
            r == self.spec_initialized(),
    {
        self.initialized
    }

    /// Initializes the plugin with the stored base configuration the first
    /// time it is needed; once that has succeeded, later calls skip the
    /// plugin entirely. The base configuration never changes, and the flag
    /// is set exactly on success.
    pub fn get_or_init(&mut self) -> (r: Result<(), ControllerError>)
        ensures
            final(self).base_config_model() == old(self).base_config_model(),
            final(self).plugin_value() == old(self).plugin_value(),
            old(self).spec_initialized() ==> r is Ok && *final(self) == *old(self),
            r is Ok <==> final(self).spec_initialized(),
    {
        if self.initialized {
            return Ok(());
        }
        match self.plugin.init(&self.base_config) {
            Ok(()) => {
                self.initialized = true;
                Ok(())
            },
            Err(e) => Err(e),
        }
    }

    /// Re-initializes the plugin, scoped to one task invocation, with the
    /// task's override deep-merged into the base configuration. Takes the
    /// wrapper immutably: the stored base configuration and the
    /// initialization flag cannot change.
    pub fn init_with_ext(&self, ext: &ResourceData) -> Result<(), ControllerError> {
        let mut config = self.base_config.clone();
        merge(&mut config, ext.clone());
        proof {
            assert(config@ == merged(self.base_config_model(), ext@));
        }
        self.plugin.init(&config)
    }

    /// The plugin, for its capability calls.
    pub fn plugin(&self) -> (r: &C)
        ensures
            *r == self.plugin_value(),
    {
        &self.plugin
    }
}

/// Owns a recognizer plugin, its base configuration, and the
/// initialization flag; the counterpart of [`ControllerWrapper`].
pub struct RecognizerWrapper<R: Recognizer> {
    plugin: R,
    base_config: ResourceData,
    initialized: bool,
}

impl<R: Recognizer> RecognizerWrapper<R> {
    /// The model of the stored base configuration.
    pub closed spec fn base_config_model(&self) -> ValueModel {
        self.base_config@
    }

    /// Whether the plugin's lazy initialization has succeeded.
    pub closed spec fn spec_initialized(&self) -> bool {
        self.initialized
    }

    /// The stored plugin instance.
    pub closed spec fn plugin_value(&self) -> R {
        self.plugin
    }

    /// A wrapper starts uninitialized.
    pub fn new(plugin: R, base_config: ResourceData) -> (r: Self)
        ensures
            r.base_config_model() == base_config@,
            r.plugin_value() == plugin,
            !r.spec_initialized(),
    {
        RecognizerWrapper { plugin, base_config, initialized: false }
    }

    /// Whether the plugin's lazy initialization has succeeded.
    pub fn is_initialized(&self) -> (r: bool)
        ensures
            r == self.spec_initialized(),
    {
        self.initialized
    }

    /// Lazy initialization; see [`ControllerWrapper::get_or_init`].
    pub fn get_or_init(&mut self) -> (r: Result<(), RecognizerError>)
        ensures
            final(self).base_config_model() == old(self).base_config_model(),
            final(self).plugin_value() == old(self).plugin_value(),
            old(self).spec_initialized() ==> r is Ok && *final(self) == *old(self),
            r is Ok <==> final(self).spec_initialized(),
    {
        if self.initialized {
            return Ok(());
        }
        match self.plugin.init(&self.base_config) {
            Ok(()) => {
                self.initialized = true;
                Ok(())
            },
            Err(e) => Err(e),
        }
    }

    /// Scoped re-initialization; see [`ControllerWrapper::init_with_ext`].
    pub fn init_with_ext(&self, ext: &ResourceData) -> Result<(), RecognizerError> {
        let mut config = self.base_config.clone();
        merge(&mut config, ext.clone());
        proof {
            assert(config@ == merged(self.base_config_model(), ext@));
        }
        self.plugin.init(&config)
    }

    /// The plugin, for its capability calls.
    pub fn plugin(&self) -> (r: &R)
        ensures
            *r == self.plugin_value(),
    {
        &self.plugin
    }
}

} // verus!
