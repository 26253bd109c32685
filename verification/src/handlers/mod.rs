//! The signal handlers of the lake's processes.

pub mod signal_handler;
