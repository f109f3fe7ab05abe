//! Column selectors for the two tabular reports.
//!
//! Rendering is a caller's concern; the library only names the columns and
//! their headings.

use vstd::prelude::*;

verus! {

/// A column of the workspace listing.
#[derive(Clone, Copy, Debug, PartialEq, Eq, Structural)]
pub enum WorkspacesColumns {
    /// Name of the workspace
    Name,
    /// Owner of the workspace
    User,
    /// Filesystem the workspace is on
    Fs,
    /// Size of the workspace
    Size,
    /// Days until expiry / deletion
    Expiry,
    /// Mountpoint of the workspace
    Mountpoint,
}

impl WorkspacesColumns {
    /// The column's heading.
    pub fn label(&self) -> (r: &'static str)
        ensures
            *self == WorkspacesColumns::Name ==> r@ == "NAME"@,
            *self == WorkspacesColumns::User ==> r@ == "USER"@,
            *self == WorkspacesColumns::Fs ==> r@ == "FS"@,
            *self == WorkspacesColumns::Size ==> r@ == "SIZE"@,
            *self == WorkspacesColumns::Expiry ==> r@ == "EXPIRY"@,
            *self == WorkspacesColumns::Mountpoint ==> r@ == "MOUNTPOINT"@,
    {
        match self {
            WorkspacesColumns::Name => "NAME",
            WorkspacesColumns::User => "USER",
            WorkspacesColumns::Fs => "FS",
            WorkspacesColumns::Size => "SIZE",
            WorkspacesColumns::Expiry => "EXPIRY",
            WorkspacesColumns::Mountpoint => "MOUNTPOINT",
        }
    }
}

/// A column of the filesystem report.
#[derive(Clone, Copy, Debug, PartialEq, Eq, Structural)]
pub enum FilesystemsColumns {
    /// Name of the filesystem
    Name,
    /// Space used
    Used,
    /// Space left
    Free,
    /// Total space
    Total,
    /// Maximum expiry duration in days of workspaces on this filesystem
    Duration,
    /// Number of days a read-only copy of a workspace is retained after expiry
    Retention,
}

impl FilesystemsColumns {
    /// The column's heading.
    pub fn label(&self) -> (r: &'static str)
        ensures
            *self == FilesystemsColumns::Name ==> r@ == "NAME"@,
            *self == FilesystemsColumns::Used ==> r@ == "USED"@,
            *self == FilesystemsColumns::Free ==> r@ == "FREE"@,
            *self == FilesystemsColumns::Total ==> r@ == "TOTAL"@,
            *self == FilesystemsColumns::Duration ==> r@ == "DURATION"@,
            *self == FilesystemsColumns::Retention ==> r@ == "RETENTION"@,
    {
        match self {
            FilesystemsColumns::Name => "NAME",
            FilesystemsColumns::Used => "USED",
            FilesystemsColumns::Free => "FREE",
            FilesystemsColumns::Total => "TOTAL",
            FilesystemsColumns::Duration => "DURATION",
            FilesystemsColumns::Retention => "RETENTION",
        }
    }
}

} // verus!
