//! ConcuLake: the coordination rules of a small fleet of ships, passengers and
//! inspectors that meet over named locks, FIFOs, semaphores and one shared table.
//!
//! Everything here is a pure decision over plain values: which resource names a
//! port owns, what a lifecycle record says, what an entity does next and how it
//! reacts to what came back. Performing the system calls is left to the caller.

pub mod error;
pub mod handlers;
pub mod live_objects;
pub mod log;
pub mod misc;
pub mod names;
mod random;
pub mod ship_signal_handler;
pub mod signal;
pub mod text;
