//! Error types of the library's own operations.

use vstd::prelude::*;

verus! {

/// Every error the seed-management layer can raise.
#[derive(Debug, Clone, Copy, PartialEq, Eq, Structural)]
pub enum FloraError {
    /// No home directory is available to anchor the configuration
    NoValidHome,
    /// A seed of that name already exists
    SeedExists,
    /// No seed of that name exists
    SeedNotFound,
    /// The seed has no default app
    SeedNoDefaultApp,
    /// The seed has no app of that name
    SeedNoApp,
    /// The seed already has an app of that name
    SeedAppExists,
    /// An update of the wrong seed kind was requested
    SeedUpdateMismatch,
    /// No Start Menu entry of that name was found
    StartMenuNotFound,
    /// The wrong runner was invoked
    IncorrectRunner,
    /// The runner is not present
    MissingRunner,
    /// The global configuration has no section for the runner
    MissingRunnerConfig,
    /// The launcher command cannot be split into words
    IncorrectLauncher,
    /// A value could not be carried across an interface boundary
    InternalError,
}

} // verus!
