//! Errors of the overlay window host.

use vstd::prelude::*;
use vstd::std_specs::convert::FromSpecImpl;
use crate::config::{self, ConfigError};
use crate::text::push_str;

verus! {

/// Why the overlay could not run.
#[derive(Debug)]
pub enum OverlayError {
    UnsupportedPlatform,
    WindowCreationFailed,
    Config(ConfigError),
}

impl From<ConfigError> for OverlayError {
    fn from(error: ConfigError) -> (r: Self) {
        OverlayError::Config(error)
    }
}

impl FromSpecImpl<ConfigError> for OverlayError {
    open spec fn obeys_from_spec() -> bool {
        true
    }

    open spec fn from_spec(error: ConfigError) -> Self {
        OverlayError::Config(error)
    }
}

impl OverlayError {
    /// The message shown for this error; a configuration error shows its own.
    pub fn text(&self) -> (s: String)
        ensures
            *self is UnsupportedPlatform ==> s@ == "overlay rendering is only supported on Windows"@,
            *self is WindowCreationFailed ==> s@ == "could not create the telemetry overlay window"@,
            (*self matches OverlayError::Config(e) && !config::wraps_outside_error(e)) ==> s@ == config::config_error_text_spec(self->Config_0),
    {
        match self {
            OverlayError::UnsupportedPlatform => {
                let mut s = String::new();
                push_str(&mut s, "overlay rendering is only supported on Windows");
                s
            },
            OverlayError::WindowCreationFailed => {
                let mut s = String::new();
                push_str(&mut s, "could not create the telemetry overlay window");
                s
            },
            OverlayError::Config(error) => error.text(),
        }
    }
}

} // verus!
