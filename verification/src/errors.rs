use vstd::prelude::*;

verus! {

/// The error taxonomy shared by every operation of the profile store.
///
/// Every fallible operation of the library reports one of these variants;
/// the command-line shell turns them into user-visible messages.
#[derive(Clone, Copy, Debug, PartialEq, Eq, Structural)]
pub enum Error {
    /// No project marker could be resolved in the working directory.
    NotInitialized,
    /// A project marker is already present in the working directory.
    AlreadyInitialized,
    /// No profile with the requested name exists in the registry.
    NotFound,
    /// A profile with the requested name already exists in the registry.
    AlreadyExists,
    /// The user-provided body was unchanged from the placeholder template.
    NoValidContent,
    /// The persisted registry could not be read.
    ConfigReadError,
    /// The registry could not be written to stable storage.
    ConfigWriteError,
    /// The user declined a confirmation prompt.
    Aborted,
    /// An underlying filesystem failure not otherwise classified.
    IoError,
    /// The persisted registry changed since it was loaded.
    Conflict,
}

impl Error {
    /// A human-readable description, for display at the command boundary.
    pub fn message(&self) -> &'static str {
        match self {
            Error::NotInitialized => "this directory is not initialized; run the init command first",
            Error::AlreadyInitialized => "this directory is already initialized",
            Error::NotFound => "no profile with that name exists for this project",
            Error::AlreadyExists => "a profile with that name already exists for this project",
            Error::NoValidContent => "there were no valid env variables in the edited content",
            Error::ConfigReadError => "failed to read the project configuration",
            Error::ConfigWriteError => "failed to save the project configuration",
            Error::Aborted => "the command was aborted",
            Error::IoError => "an underlying filesystem operation failed",
            Error::Conflict => "the configuration changed since it was loaded; retry the command",
        }
    }
}

} // verus!
