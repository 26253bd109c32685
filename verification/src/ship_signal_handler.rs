//! The interrupt handler of a ship that runs on its own.

use crate::signal::SignalHandler;
use vstd::prelude::*;

verus! {

/// Remembers an interrupt. Once set it stays set.
pub struct ShipSigIntHandler {
    quit: bool,
}

impl SignalHandler for ShipSigIntHandler {
    closed spec fn noted(&self) -> bool {
        self.quit
    }

    fn handle(&mut self) {
        self.quit = true;
    }
}

impl ShipSigIntHandler {
    /// A handler that has seen no interrupt.
    pub fn new() -> (handler: ShipSigIntHandler)
        ensures
            !handler.noted(),
    {
        ShipSigIntHandler { quit: false }
    }

    /// Whether an interrupt has come.
    pub fn has_graceful_quit(&self) -> (quit: bool)
        ensures
            quit == self.noted(),
    {
        self.quit
    }
}

} // verus!
