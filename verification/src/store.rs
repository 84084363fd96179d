//! Restoring the registry when a session starts.
//!
//! The registry is stored as one text. Reading that text from the disk,
//! decoding it and writing it back are the caller's part; what is decided
//! here is what to make of what the caller found.

use crate::error::RegistryError;
use crate::settings::empty_settings;
use crate::settings::Settings;
use vstd::prelude::*;

verus! {

/// What the caller found where the registry is stored.
#[derive(Debug)]
pub enum Backing {
    /// Nothing is stored there yet.
    Missing,
    /// Something is stored there, but it could not be read.
    Unreadable,
    /// The text that is stored there.
    Contents { text: String },
}

/// How a session gets its registry.
#[derive(Debug)]
pub enum LoadStep {
    /// Nothing was stored: the session starts with this empty registry, which
    /// is to be saved at once, so that from then on something is stored.
    Fresh { settings: Settings },
    /// This text was stored: it is to be decoded, and the outcome handed to
    /// `restore_settings`.
    Decode { text: String },
}

/// Decides how a session gets its registry from what is stored. A store that
/// is missing or empty stands for the empty registry; any other text has to
/// be decoded; a store that cannot be read is a failure.
pub fn read_settings_from_file(backing: Backing) -> (result: Result<LoadStep, RegistryError>)
    ensures
        match backing {
            Backing::Missing => match result {
                Ok(LoadStep::Fresh { settings }) => settings@ == empty_settings(),
                _ => false,
            },
            Backing::Unreadable => result matches Err(error) && error == RegistryError::IoError,
            Backing::Contents { text } => match result {
                Ok(LoadStep::Fresh { settings }) => text@.len() == 0 && settings@
                    == empty_settings(),
                Ok(LoadStep::Decode { text: stored }) => text@.len() > 0 && stored@ == text@,
                _ => false,
            },
        },
{
    match backing {
        Backing::Missing => Ok(LoadStep::Fresh { settings: Settings::new() }),
        Backing::Unreadable => Err(RegistryError::IoError),
        Backing::Contents { text } => {
            if text.as_str().unicode_len() == 0 {
                Ok(LoadStep::Fresh { settings: Settings::new() })
            } else {
                Ok(LoadStep::Decode { text })
            }
        },
    }
}

/// Takes what decoding the stored text gave: the registry it describes, or
/// `None` when the text describes none, which is a failure.
pub fn restore_settings(decoded: Option<Settings>) -> (result: Result<Settings, RegistryError>)
    ensures
        match decoded {
            None => result matches Err(error) && error == RegistryError::MalformedState,
            Some(stored) => result matches Ok(settings) && settings@ == stored@,
        },
{
    match decoded {
        None => Err(RegistryError::MalformedState),
        Some(stored) => Ok(stored),
    }
}

} // verus!
