//! The inspector, and the navy: both look for the ship that lies in a port and
//! signal it, once for each ship they find.

use crate::live_objects::lake::{Lake, occupant, signed_port};
use crate::random::random_u32;
use vstd::prelude::*;

verus! {

/// Milliseconds that an inspector takes from port to port.
pub const TRAVEL_MSECS: u32 = 1000;

/// What an inspector is about to do.
#[derive(Clone, Copy, Debug, PartialEq, Eq, Structural)]
pub enum Status {
    Inspect,
    Travel,
}

/// What a ship is signalled.
#[derive(Clone, Copy, Debug, PartialEq, Eq, Structural)]
pub enum Signal {
    /// An inspector asks for the fares.
    Inspection,
    /// The navy orders everybody off.
    ForcedDisembark,
}

/// A signal and the process of the ship that is to get it.
#[derive(Clone, Copy, Debug, PartialEq, Eq, Structural)]
pub struct Order {
    pub ship: u32,
    pub signal: Signal,
}

/// An inspector, or the navy.
pub struct Inspector {
    pub current_port: i32,
    pub status: Status,
    /// An inspector where true, the navy where false.
    pub is_inspector: bool,
    /// The ship that it signalled last; zero before the first.
    pub last_inspection: u32,
}

impl Inspector {
    /// The signal that this one sends.
    pub open spec fn signal(&self) -> Signal {
        if self.is_inspector {
            Signal::Inspection
        } else {
            Signal::ForcedDisembark
        }
    }

    /// The inspector after it has looked at a port where `found` lies, and the
    /// order that it gives: one for a ship that it did not signal last, none
    /// for the same ship again or for an empty port. It travels next.
    pub open spec fn inspected(self, found: Option<u32>) -> (Inspector, Option<Order>) {
        match found {
            Some(ship) if ship != self.last_inspection => (
                Inspector { status: Status::Travel, last_inspection: ship, ..self },
                Some(Order { ship, signal: self.signal() }),
            ),
            _ => (Inspector { status: Status::Travel, ..self }, None),
        }
    }

    /// An inspector, or the navy, in `current_port`, about to look at it.
    pub fn new(current_port: i32, is_inspector: bool) -> (inspector: Inspector)
        ensures
            inspector == (Inspector {
                current_port,
                status: Status::Inspect,
                is_inspector,
                last_inspection: 0,
            }),
    {
        Inspector { current_port, status: Status::Inspect, is_inspector, last_inspection: 0 }
    }

    /// What the inspector is about to do.
    pub fn tick(&self) -> (status: Status)
        ensures
            status == self.status,
    {
        self.status
    }

    /// Takes in who lies in the port, and says whom to signal.
    pub fn inspect_ship(&mut self, found: Option<u32>) -> (order: Option<Order>)
        ensures
            (*final(self), order) == old(self).inspected(found),
    {
        let order = match found {
            Some(ship) => {
                if self.last_inspection != ship {
                    self.last_inspection = ship;
                    let signal = if self.is_inspector {
                        Signal::Inspection
                    } else {
                        Signal::ForcedDisembark
                    };
                    Some(Order { ship, signal })
                } else {
                    None
                }
            },
            None => None,
        };
        self.status = Status::Travel;
        order
    }

    /// Looks at the inspector's port in the table of `lake`, and says whom to
    /// signal.
    pub fn inspect(&mut self, lake: &Lake) -> (order: Option<Order>)
        requires
            0 <= old(self).current_port < lake.num_ports(),
        ensures
            (*final(self), order) == old(self).inspected(
                occupant(lake.table()[old(self).current_port as int]),
            ),
    {
        let found = lake.get_ship_at(self.current_port as u32);
        self.inspect_ship(found)
    }

    /// The inspector has gone to the port of `lake` that `draw` picks, and is
    /// about to look at it.
    pub fn travel_for(&mut self, lake: &Lake, draw: u32)
        requires
            lake.wf(),
            lake.num_ports() > 0,
        ensures
            *final(self) == (Inspector {
                status: Status::Inspect,
                current_port: (draw as int % lake.num_ports() as int) as i32,
                ..*old(self)
            }),
    {
        self.current_port = signed_port(lake.port_for_draw(draw));
        self.status = Status::Inspect;
    }

    /// The inspector has gone to a port of `lake` picked by chance, and is
    /// about to look at it.
    pub fn travel(&mut self, lake: &Lake)
        requires
            lake.wf(),
            lake.num_ports() > 0,
        ensures
            final(self).status == Status::Inspect,
            0 <= final(self).current_port < lake.num_ports(),
            final(self).is_inspector == old(self).is_inspector,
            final(self).last_inspection == old(self).last_inspection,
    {
        let draw = random_u32();
        self.travel_for(lake, draw);
    }
}

} // verus!
