//! The errors that the library reports.

use vstd::prelude::*;

use crate::text::copy_str;

verus! {

/// The things that can go wrong.
#[derive(Debug, Clone)]
pub enum Error {
    /// Running an external command failed; holds the command line.
    CommandFailed(Vec<String>),
    /// The project's state could not be fetched from Docker.
    CouldNotGetRuntimeState,
    /// `input` could not be parsed as a `parsing_as`.
    CouldNotParse { parsing_as: String, input: String },
    /// A directory could not be read.
    CouldNotReadDirectory(String),
    /// A file could not be read.
    CouldNotReadFile(String),
    /// A file could not be written.
    CouldNotWriteFile(String),
    /// This feature was disabled when the application was compiled.
    FeatureDisabled,
    /// The project asks for a version requirement that this tool does not
    /// meet; holds the requirement.
    MismatchedVersion(String),
    /// The output directory already exists.
    OutputDirectoryExists(String),
    /// A plugin failed; holds its name.
    PluginFailed(String),
    /// A target file adds services that its base file does not define.
    ServicesAddedInTarget { base: String, target: String, names: Vec<String> },
    /// No library with this key is defined.
    UnknownLibKey(String),
    /// A library may not name a subdirectory in its git URL.
    LibHasRepoSubdirectory(String),
    /// No target with this name exists.
    UnknownTarget(String),
    /// No pod or service with this name exists.
    UnknownPodOrService(String),
    /// No service with this name exists.
    UnknownService(String),
    /// No source tree has this short alias.
    UnknownSource(String),
    /// Talking to the Vault server failed; holds its address.
    VaultError(String),
    /// Any other failure, described by its message.
    Message(String),
}

impl Error {
    /// An error for `input` that could not be parsed as `parsing_as`.
    pub fn parse(parsing_as: &str, input: &str) -> (r: Error)
        ensures
            r matches Error::CouldNotParse { parsing_as: p, input: i } && p@ == parsing_as@ && i@ == input@,
    {
        Error::CouldNotParse { parsing_as: copy_str(parsing_as), input: copy_str(input) }
    }

    /// An error described by `message`.
    pub fn msg(message: &str) -> (r: Error)
        ensures
            r matches Error::Message(m) && m@ == message@,
    {
        Error::Message(copy_str(message))
    }
}

} // verus!
