//! Ownership authorization and per-filesystem policy, as pure checks.
//!
//! A privileged actor bypasses every check here.

use vstd::prelude::*;

use crate::config::Filesystem;
use crate::errors::LifecycleError;

verus! {

/// Who is invoking an operation.
#[derive(Debug)]
pub struct Actor {
    /// The acting user's name.
    pub name: String,
    /// Whether the actor may bypass ownership and policy checks.
    pub privileged: bool,
}

/// Whether the actor may act on workspaces owned by `user`.
pub open spec fn authorized(actor: &Actor, user: Seq<char>) -> bool {
    actor.privileged || actor.name@ == user
}

/// Whether the filesystem accepts creations and extensions from the
/// actor.
pub open spec fn enabled_for(fs: &Filesystem, actor: &Actor) -> bool {
    !fs.disabled || actor.privileged
}

/// Whether the actor may use this duration on this filesystem.
pub open spec fn duration_allowed(fs: &Filesystem, duration: i64, actor: &Actor) -> bool {
    duration <= fs.max_duration || actor.privileged
}

/// Rejects the operation unless the actor owns the workspace or is
/// privileged.
pub fn authorize(actor: &Actor, user: &str) -> (r: Result<(), LifecycleError>)
    ensures
        r is Ok <==> authorized(actor, user@),
        r is Err ==> r->Err_0 == LifecycleError::InsufficientPrivileges,
{
    if actor.privileged || crate::naming::str_equal(actor.name.as_str(), user) {
        Result::Ok(())
    } else {
        Result::Err(LifecycleError::InsufficientPrivileges)
    }
}

/// Rejects the operation if the filesystem is disabled for this actor.
pub fn check_enabled(fs: &Filesystem, actor: &Actor) -> (r: Result<(), LifecycleError>)
    ensures
        r is Ok <==> enabled_for(fs, actor),
        r is Err ==> r->Err_0 == LifecycleError::FilesystemDisabled,
{
    if fs.disabled && !actor.privileged {
        Result::Err(LifecycleError::FilesystemDisabled)
    } else {
        Result::Ok(())
    }
}

/// Rejects the operation if the duration exceeds the filesystem's cap and
/// the actor is not privileged.
pub fn check_duration(fs: &Filesystem, duration: i64, actor: &Actor) -> (r: Result<
    (),
    LifecycleError,
>)
    ensures
        r is Ok <==> duration_allowed(fs, duration, actor),
        r is Err ==> r->Err_0 == LifecycleError::TooHighDuration,
{
    if duration > fs.max_duration && !actor.privileged {
        Result::Err(LifecycleError::TooHighDuration)
    } else {
        Result::Ok(())
    }
}

} // verus!
