//! The error taxonomy the lifecycle engine surfaces to its callers.

use vstd::prelude::*;

verus! {

/// Everything a lifecycle operation can report instead of succeeding.
///
/// The first six variants are expected outcomes: the operation aborted
/// before any volume mutation, and before any metadata commit where the
/// check precedes it.  `Backend` reports a volume-manager failure after the
/// metadata may already have been committed.
#[derive(Clone, Copy, Debug, PartialEq, Eq, Structural)]
pub enum LifecycleError {
    /// The acting user is neither the owner nor privileged.
    InsufficientPrivileges,
    /// The filesystem is disabled and the actor is not privileged.
    FilesystemDisabled,
    /// The requested duration exceeds the filesystem's cap.
    TooHighDuration,
    /// No record matched the `(filesystem, user, name)` key.
    UnknownWorkspace,
    /// A record with the target key already exists.
    WorkspaceExists,
    /// No filesystem was named and none could be chosen by default.
    NoFilesystemSpecified,
    /// The store's schema version is newer than this engine knows.
    SchemaTooNew,
    /// The volume manager failed; metadata may be ahead of the volumes.
    Backend(crate::backend::Error),
}

} // verus!
