//! Small decisions shared by the pipelines: what the answer of the
//! filesystem or of a child process means.

use vstd::prelude::*;
use crate::text::{concat3, concat4};

verus! {

/// What the filesystem answered when asked about a path.
#[derive(Debug, Clone, PartialEq, Eq)]
pub enum PathProbe {
    /// Something is there. `mode` holds its permission bits.
    Found { is_file: bool, mode: u32 },
    /// Nothing is there.
    NotFound,
    /// The question itself failed, for the reason given.
    Failed(String),
}

/// How the attempt to run a child process ended.
#[derive(Debug, Clone, PartialEq, Eq)]
pub enum CommandOutcome {
    /// The process could not be started.
    SpawnFailed(String),
    /// The process started but waiting for it failed.
    WaitFailed(String),
    /// The process ran to its end; `success` says whether it exited with code 0.
    Exited { success: bool },
}

/// The permission bit that lets the owner of a file execute it.
pub const OWNER_EXECUTE: u32 = 0o100;

pub open spec fn exists_error(path: Seq<char>, cause: Seq<char>) -> Seq<char> {
    "error checking for existence of path at \""@ + path + "\": "@ + cause
}

pub open spec fn mode_error(path: Seq<char>, cause: Seq<char>) -> Seq<char> {
    "error checking file mode for file \""@ + path + "\": "@ + cause
}

pub open spec fn spawn_error(name: Seq<char>, cause: Seq<char>) -> Seq<char> {
    "error spawning "@ + name + " call: "@ + cause
}

pub open spec fn wait_error(name: Seq<char>, cause: Seq<char>) -> Seq<char> {
    "error during "@ + name + " call: "@ + cause
}

pub open spec fn status_error(name: Seq<char>) -> Seq<char> {
    ""@ + name + " call returned a bad status"@
}

/// Why the command called `name` counts as failed after `outcome`, in words;
/// `None` when it succeeded.
pub open spec fn command_failure(name: Seq<char>, outcome: CommandOutcome) -> Option<Seq<char>> {
    match outcome {
        CommandOutcome::Exited { success } => if success {
            None
        } else {
            Some(status_error(name))
        },
        CommandOutcome::SpawnFailed(cause) => Some(spawn_error(name, cause@)),
        CommandOutcome::WaitFailed(cause) => Some(wait_error(name, cause@)),
    }
}

/// Whether something exists at `path`, given what the filesystem answered.
/// Only an answer other than "found" and "not found" is an error.
pub fn path_exists(path: &str, probe: &PathProbe) -> (r: Result<bool, String>)
    ensures
        match *probe {
            PathProbe::Found { .. } => r == Ok::<bool, String>(true),
            PathProbe::NotFound => r == Ok::<bool, String>(false),
            PathProbe::Failed(cause) => r matches Err(message) && message@ == exists_error(
                path@,
                cause@,
            ),
        },
{
    match probe {
        PathProbe::Found { .. } => Ok(true),
        PathProbe::NotFound => Ok(false),
        PathProbe::Failed(cause) => Err(
            concat4("error checking for existence of path at \"", path, "\": ", cause.as_str()),
        ),
    }
}

/// Whether `path` is a regular file that its owner may execute, given what
/// the filesystem answered. A missing path is not executable.
pub fn is_executable(path: &str, probe: &PathProbe) -> (r: Result<bool, String>)
    ensures
        match *probe {
            PathProbe::Found { is_file, mode } => r == Ok::<bool, String>(
                is_file && mode & OWNER_EXECUTE != 0,
            ),
            PathProbe::NotFound => r == Ok::<bool, String>(false),
            PathProbe::Failed(cause) => r matches Err(message) && message@ == mode_error(
                path@,
                cause@,
            ),
        },
{
    match probe {
        PathProbe::Found { is_file, mode } => Ok(*is_file && *mode & OWNER_EXECUTE != 0),
        PathProbe::NotFound => Ok(false),
        PathProbe::Failed(cause) => Err(
            concat4("error checking file mode for file \"", path, "\": ", cause.as_str()),
        ),
    }
}

/// `target` without the leading `cwd`, or `target` as it is when it does
/// not lie under `cwd`. Both are read in plain form. What is returned for
/// a target under a directory is a relative path, and joined onto the
/// directory it names the target again.
pub fn strip_prefix(target: &str, cwd: &str) -> (r: String)
    ensures
        r@ == match crate::paths::strip_prefix(target@, cwd@) {
            Some(relative) => relative,
            None => target@,
        },
        cwd@.len() > 0 && crate::paths::strip_prefix(target@, cwd@) is Some ==> {
            &&& !crate::paths::is_absolute(r@)
            &&& r@.len() > 0 ==> crate::paths::join(crate::paths::plain(cwd@), r@)
                == crate::paths::plain(target@)
            &&& r@.len() == 0 ==> crate::paths::plain(cwd@) == crate::paths::plain(target@)
        },
{
    proof {
        if cwd@.len() > 0 && crate::paths::strip_prefix(target@, cwd@) is Some {
            crate::paths::lemma_stripped_is_relative(target@, cwd@);
            crate::paths::lemma_join_stripped(target@, cwd@);
        }
    }
    match crate::paths::strip_base(target, cwd) {
        Some(relative) => relative,
        None => target.to_owned(),
    }
}

/// Whether the command called `name` completed successfully. It did only
/// when it started, could be waited for, and exited with code 0.
pub fn run_command(name: &str, outcome: &CommandOutcome) -> (r: Result<(), String>)
    ensures
        match command_failure(name@, *outcome) {
            None => r is Ok,
            Some(text) => r matches Err(message) && message@ == text,
        },
{
    match outcome {
        CommandOutcome::Exited { success } => {
            if *success {
                Ok(())
            } else {
                Err(concat3("", name, " call returned a bad status"))
            }
        },
        CommandOutcome::SpawnFailed(cause) => Err(
            concat4("error spawning ", name, " call: ", cause.as_str()),
        ),
        CommandOutcome::WaitFailed(cause) => Err(
            concat4("error during ", name, " call: ", cause.as_str()),
        ),
    }
}

} // verus!
