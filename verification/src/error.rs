//! The ways in which an operation on the registry can fail.

use vstd::prelude::*;
use vstd::string::StringExecFns;

verus! {

/// Why an operation did not take place. None of these ends the session: the
/// first four are told to the user, and so is a failed save; a stored state
/// that cannot be read is reported when the session starts.
#[derive(Clone, Copy, Debug, PartialEq, Eq, Structural)]
pub enum RegistryError {
    /// The project that was named is not in the registry.
    NotFound,
    /// The operation needs a selected project, and none is selected.
    NoProjectSelected,
    /// The project has no profiles to choose from.
    EmptyProfileList,
    /// The user left the picker without confirming.
    PickerCancelled,
    /// The stored state could not be read or written.
    IoError,
    /// The stored state is not a valid description of a registry.
    MalformedState,
}

impl RegistryError {
    /// What the user is told about this failure.
    pub open spec fn spec_message(self) -> Seq<char> {
        match self {
            RegistryError::NotFound => "The selected project does not exist"@,
            RegistryError::NoProjectSelected =>
                "You do not have a project selected. Please select a project first"@,
            RegistryError::EmptyProfileList =>
                "No profiles available to select, please add profiles to this project"@,
            RegistryError::PickerCancelled => "Failed to process the selection"@,
            RegistryError::IoError => "The settings could not be read or written"@,
            RegistryError::MalformedState => "The stored settings are not valid"@,
        }
    }

    /// What the user is told about this failure.
    pub fn message(&self) -> (text: String)
        ensures
            text@ == self.spec_message(),
    {
        match self {
            RegistryError::NotFound => String::from_str("The selected project does not exist"),
            RegistryError::NoProjectSelected => String::from_str(
                "You do not have a project selected. Please select a project first",
            ),
            RegistryError::EmptyProfileList => String::from_str(
                "No profiles available to select, please add profiles to this project",
            ),
            RegistryError::PickerCancelled => String::from_str("Failed to process the selection"),
            RegistryError::IoError => String::from_str("The settings could not be read or written"),
            RegistryError::MalformedState => String::from_str("The stored settings are not valid"),
        }
    }
}

} // verus!
