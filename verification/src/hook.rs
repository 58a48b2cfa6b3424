use crate::argument::CommandOptionChoice;
use vstd::prelude::*;

verus! {

/// The callback types that an application attaches to its commands.
///
/// Only `Choices` is ever called by this crate: it is a plain function that
/// lists the static choices of an argument. All other callbacks may suspend or
/// talk to the platform, so they are stored untouched and handed back to the
/// integrator, which runs them when the pipeline asks for it.
pub trait Hooks {
    /// Produces the static choices of an argument; `None` or an empty list
    /// means that arbitrary values are accepted.
    type Choices: Fn() -> Option<Vec<CommandOptionChoice>>;

    /// Suggests values for a partially typed argument.
    type Autocomplete;

    /// A guard that must pass before a command is executed.
    type Check;

    /// Runs before the executor and may veto it.
    type Before;

    /// Runs after the executor (or its error handler) has finished.
    type After;

    /// Consumes the error of a failed executor.
    type ErrorHandler;

    /// The body of a command.
    type Executor;
}

} // verus!
