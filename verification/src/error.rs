//! The failures that end a participant.

use vstd::prelude::*;

verus! {

/// Why a participant gives up. Every one of these is fatal to the process that
/// meets it; none is retried.
#[derive(Clone, Copy, Debug, PartialEq, Eq, Structural)]
pub enum LakeError {
    /// A resource that was to be created is already there.
    ResourceCollision,
    /// A resource that was to be attached is not there.
    ResourceMissing,
    /// The configuration is not older than the lifecycle record.
    StaleConfiguration,
    /// A system call failed for any other reason.
    Io,
    /// A channel or a record held text that is no identifier, port or counter.
    ProtocolViolation,
}

/// The system's error number for "file exists".
pub const EEXIST: i32 = 17;

/// The system's error number for "no such file or directory".
pub const ENOENT: i32 = 2;

/// How a failed system call on a named resource counts, by its error number and
/// by whether the call was to create the resource or to attach to it.
pub open spec fn classified(errno: i32, creating: bool) -> LakeError {
    if creating && errno == EEXIST {
        LakeError::ResourceCollision
    } else if !creating && errno == ENOENT {
        LakeError::ResourceMissing
    } else {
        LakeError::Io
    }
}

/// Names the failure of a system call on a named resource.
pub fn classify(errno: i32, creating: bool) -> (e: LakeError)
    ensures
        e == classified(errno, creating),
{
    if creating && errno == EEXIST {
        LakeError::ResourceCollision
    } else if !creating && errno == ENOENT {
        LakeError::ResourceMissing
    } else {
        LakeError::Io
    }
}

} // verus!
