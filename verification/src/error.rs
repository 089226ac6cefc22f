//! The errors shown at the command surface.

use vstd::prelude::*;

verus! {

/// What went wrong, as the user interface is told.
#[derive(Debug, Clone, Copy, PartialEq, Eq, Hash, Structural)]
pub enum AudioError {
    HostError,
    InputDeviceError,
    OutputDeviceError,
    PluginLoadError,
    PluginEditorError,
}

impl AudioError {
    /// The text shown for the error.
    pub open spec fn spec_message(self) -> Seq<char> {
        match self {
            AudioError::HostError => "Host error"@,
            AudioError::InputDeviceError => "Input device error"@,
            AudioError::OutputDeviceError => "Output device error"@,
            AudioError::PluginLoadError => "Plugin load error"@,
            AudioError::PluginEditorError => "Plugin editor error"@,
        }
    }

    /// The text shown for the error.
    pub fn message(&self) -> (r: String)
        ensures
            r@ == self.spec_message(),
    {
        match self {
            AudioError::HostError => String::from_str("Host error"),
            AudioError::InputDeviceError => String::from_str("Input device error"),
            AudioError::OutputDeviceError => String::from_str("Output device error"),
            AudioError::PluginLoadError => String::from_str("Plugin load error"),
            AudioError::PluginEditorError => String::from_str("Plugin editor error"),
        }
    }
}

} // verus!
