//! One-slot inboxes: each remembers that its signal came, until it is read.

use crate::signal::SignalHandler;
use vstd::prelude::*;

verus! {

/// Remembers a request to quit. Once set it stays set.
pub struct QuitHandler {
    quit: bool,
}

/// Remembers that a signal came, until it is reset.
pub struct GenericHandler {
    handled: bool,
}

impl SignalHandler for QuitHandler {
    closed spec fn noted(&self) -> bool {
        self.quit
    }

    fn handle(&mut self) {
        self.quit = true;
    }
}

impl QuitHandler {
    /// A handler that has seen no request to quit.
    pub fn new() -> (handler: QuitHandler)
        ensures
            !handler.noted(),
    {
        QuitHandler { quit: false }
    }

    /// Whether a request to quit has come.
    pub fn has_graceful_quit(&self) -> (quit: bool)
        ensures
            quit == self.noted(),
    {
        self.quit
    }
}

impl Default for QuitHandler {
    fn default() -> (handler: QuitHandler)
        ensures
            !handler.noted(),
    {
        QuitHandler::new()
    }
}

impl SignalHandler for GenericHandler {
    closed spec fn noted(&self) -> bool {
        self.handled
    }

    fn handle(&mut self) {
        self.handled = true;
    }
}

impl GenericHandler {
    /// A handler that has seen no signal.
    pub fn new() -> (handler: GenericHandler)
        ensures
            !handler.noted(),
    {
        GenericHandler { handled: false }
    }

    /// Whether the signal has come since the last reset.
    pub fn get_handled(&self) -> (handled: bool)
        ensures
            handled == self.noted(),
    {
        self.handled
    }

    /// Forgets the signal.
    pub fn reset(&mut self)
        ensures
            !final(self).noted(),
    {
        self.handled = false;
    }
}

impl Default for GenericHandler {
    fn default() -> (handler: GenericHandler)
        ensures
            !handler.noted(),
    {
        GenericHandler::new()
    }
}

} // verus!
