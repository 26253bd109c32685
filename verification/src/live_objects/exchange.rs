//! The steps of a rendezvous: what is done, in which order, on which lock,
//! semaphore or channel.

use vstd::prelude::*;
use vstd::string::*;

verus! {

/// What one step of a rendezvous does.
#[derive(Clone, Copy, Debug, PartialEq, Eq, Structural)]
pub enum IoKind {
    /// Take the exclusive lock of the lock file; this blocks until it is free.
    Lock,
    /// Give up the lock of the lock file.
    Unlock,
    /// Add one to the semaphore that is keyed off the file.
    Signal,
    /// Take one from the semaphore that is keyed off the file; this blocks
    /// until there is one to take.
    Wait,
    /// Open the FIFO for writing, which blocks until somebody reads it, and
    /// write the line.
    Write,
    /// Open the FIFO for reading, which blocks until somebody writes to it,
    /// and read one line.
    Read,
    /// Read the occupancy table from the shared segment that is keyed off the
    /// file.
    Load,
    /// Write the occupancy table back to the shared segment that is keyed off
    /// the file.
    Store,
}

/// One step of a rendezvous. Only a step that writes has a line.
pub struct IoStep {
    pub kind: IoKind,
    pub path: String,
    pub line: String,
}

/// Steps as kinds, names and lines.
pub open spec fn steps_view(steps: Seq<IoStep>) -> Seq<(IoKind, Seq<char>, Seq<char>)> {
    Seq::new(steps.len(), |i: int| (steps[i].kind, steps[i].path@, steps[i].line@))
}

/// A step without a line.
pub fn step(kind: IoKind, path: String) -> (s: IoStep)
    ensures
        s.kind == kind,
        s.path == path,
        s.line@ == Seq::<char>::empty(),
{
    IoStep { kind, path, line: String::new() }
}

} // verus!
