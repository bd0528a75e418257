//! Specifying the pods, services or sources acted on by a command.

use vstd::prelude::*;

verus! {

/// The names of pods, services or both to pass to one of our commands.
#[derive(Debug, Clone)]
pub enum ActOn {
    /// Act upon all the pods and/or services associated with this project.
    All,
    /// Act on services except those defined in pods of type `Task`.
    AllExceptTasks,
    /// Act upon only the named pods and/or services.
    Named(Vec<String>),
}

/// What sources do we want to operate on?
#[derive(Debug, Clone)]
pub enum ActOnSources {
    /// All our sources.
    All,
    /// Only the specified sources.  Names that do not correspond to any
    /// source are ignored, so check that before getting here.
    Named(Vec<String>),
}

} // verus!
