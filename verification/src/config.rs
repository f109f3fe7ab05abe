//! The immutable per-filesystem policy the engine is configured with, and
//! the rule choosing which filesystem an invocation acts on.

use vstd::prelude::*;

use crate::errors::LifecycleError;
use crate::naming::str_equal;

verus! {

/// A filesystem workspaces can be created in, with its policy.
#[derive(Debug)]
pub struct Filesystem {
    /// The filesystem's name, as callers refer to it.
    pub name: String,
    /// The volume that acts as the root for the workspace volumes.
    pub root: String,
    /// Maximum number of days a workspace may exist.
    pub max_duration: i64,
    /// Days after which an expired workspace will be removed.
    pub expired_retention: i64,
    /// Whether creating and extending workspaces is disabled.
    pub disabled: bool,
}

impl Filesystem {
    /// Durations are day counts, never negative.
    pub open spec fn wf(&self) -> bool {
        0 <= self.max_duration && 0 <= self.expired_retention
    }
}

/// The engine's configuration: the filesystems and an optional default.
#[derive(Debug)]
pub struct Config {
    /// The filesystem used when an invocation names none.
    pub default_filesystem: Option<String>,
    /// The filesystems workspaces can live on.
    pub filesystems: Vec<Filesystem>,
}

impl Config {
    /// Every filesystem is well-formed and names are unique.
    pub open spec fn wf(&self) -> bool {
        (forall|i: int| 0 <= i < self.filesystems@.len() ==> (#[trigger] self.filesystems@[i]).wf())
            && (forall|i: int, j: int|
            0 <= i < j < self.filesystems@.len() ==> (#[trigger] self.filesystems@[i]).name@ != (
            #[trigger] self.filesystems@[j]).name@)
    }

    /// Whether some filesystem carries the name.
    pub open spec fn has_filesystem(&self, name: Seq<char>) -> bool {
        exists|i: int|
            0 <= i < self.filesystems@.len() && (#[trigger] self.filesystems@[i]).name@ == name
    }

    /// The filesystem with the name; well-defined wherever `wf()` holds
    /// and `has_filesystem(name)`.
    pub open spec fn filesystem_named(&self, name: Seq<char>) -> Filesystem {
        self.filesystems@[choose|i: int|
            0 <= i < self.filesystems@.len() && (#[trigger] self.filesystems@[i]).name@ == name]
    }

    /// Looks a filesystem up by name.
    pub fn find_filesystem(&self, name: &str) -> (r: Option<&Filesystem>)
        requires
            self.wf(),
        ensures
            match r {
                Option::Some(fs) => self.has_filesystem(name@) && *fs == self.filesystem_named(
                    name@,
                ),
                Option::None => !self.has_filesystem(name@),
            },
    {
        let mut i: usize = 0;
        while i < self.filesystems.len()
            invariant
                self.wf(),
                i <= self.filesystems@.len(),
                forall|j: int| 0 <= j < i ==> (#[trigger] self.filesystems@[j]).name@ != name@,
            decreases self.filesystems@.len() - i,
        {
            if str_equal(self.filesystems[i].name.as_str(), name) {
                proof {
                    let j = choose|j: int|
                        0 <= j < self.filesystems@.len() && (#[trigger] self.filesystems@[j]).name@
                            == name@;
                    if j != i {
                        assert(self.filesystems@[j].name@ != self.filesystems@[i as int].name@);
                    }
                }
                return Option::Some(&self.filesystems[i]);
            }
            i = i + 1;
        }
        proof {
            if self.has_filesystem(name@) {
                let j = choose|j: int|
                    0 <= j < self.filesystems@.len() && (#[trigger] self.filesystems@[j]).name@
                        == name@;
                assert(self.filesystems@[j].name@ != name@);
            }
        }
        Option::None
    }
}

/// Which filesystem name an invocation refers to: the one given, else the
/// configured default, else the only one there is.
pub open spec fn requested_name(config: &Config, requested: &Option<String>) -> Option<Seq<char>> {
    if (*requested) is Some {
        Option::Some((*requested)->Some_0@)
    } else if config.default_filesystem is Some {
        Option::Some(config.default_filesystem->Some_0@)
    } else if config.filesystems@.len() == 1 {
        Option::Some(config.filesystems@[0].name@)
    } else {
        Option::None
    }
}

/// Resolves the filesystem an invocation acts on: the given name if it is
/// configured, else the default, else the only filesystem; an unconfigured
/// choice is rejected, and so is naming none when none can be chosen.
pub fn resolve_filesystem(config: &Config, requested: &Option<String>) -> (r: Result<
    String,
    LifecycleError,
>)
    requires
        config.wf(),
    ensures
        match r {
            Result::Ok(name) => requested_name(config, requested) == Option::Some(name@)
                && config.has_filesystem(name@),
            Result::Err(LifecycleError::NoFilesystemSpecified) => requested_name(config, requested)
                is None,
            Result::Err(LifecycleError::UnknownWorkspace) => {
                &&& requested_name(config, requested) is Some
                &&& !config.has_filesystem(requested_name(config, requested)->Some_0)
            },
            Result::Err(_) => false,
        },
{
    let name: String = match requested {
        Option::Some(n) => n.clone(),
        Option::None => {
            match &config.default_filesystem {
                Option::Some(d) => d.clone(),
                Option::None => {
                    if config.filesystems.len() == 1 {
                        config.filesystems[0].name.clone()
                    } else {
                        return Result::Err(LifecycleError::NoFilesystemSpecified);
                    }
                },
            }
        },
    };
    match config.find_filesystem(name.as_str()) {
        Option::Some(_) => Result::Ok(name),
        Option::None => Result::Err(LifecycleError::UnknownWorkspace),
    }
}

} // verus!
