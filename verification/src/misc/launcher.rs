//! Makes the entity that the operator asked for.

use crate::live_objects::inspector::Inspector;
use crate::live_objects::lake::signed_port;
use crate::live_objects::live_object::LiveObjectRunner;
use crate::live_objects::passenger::Passenger;
use crate::live_objects::ship::Ship;
use crate::misc::tui::PromptSelection;
use crate::random::random_u32;
use crate::signal::SignalHandler;
use vstd::prelude::*;

verus! {

/// Places on a ship that is launched.
pub const SHIP_CAPACITY: u32 = 2;

/// An entity of the lake.
pub enum LiveObject {
    Ship(Ship),
    Passenger(Passenger),
    Inspector(Inspector),
}

/// Makes entities.
pub struct Launcher;

/// The port of a lake of `n` ports that a draw picks.
pub open spec fn drawn_port(draw: u32, n: nat) -> u32 {
    (draw as int % n as int) as u32
}

impl Launcher {
    /// The entity that `selection` asks for, in the process `pid`, given the
    /// two draws that pick its ports: a ship with two places bound for the
    /// first port; a passenger bound for the first port and waiting in the
    /// second; an inspector, or the navy, in the first port.
    pub open spec fn launched(
        n: nat,
        selection: PromptSelection,
        pid: u32,
        first: u32,
        second: u32,
        object: LiveObject,
    ) -> bool {
        match selection {
            PromptSelection::Ship => object matches LiveObject::Ship(ship) && {
                &&& ship.current_capacity == SHIP_CAPACITY
                &&& ship.destination == drawn_port(first, n)
                &&& ship.onboard() == Seq::<u32>::empty()
                &&& ship.status == crate::live_objects::ship::Status::Travel
                &&& !ship.sigalarm_handler.noted()
                &&& !ship.sigusr_handler.noted()
            },
            PromptSelection::Passenger => object == LiveObject::Passenger(
                Passenger {
                    destination: drawn_port(first, n) as i32,
                    current_port: drawn_port(second, n) as i32,
                    id: pid,
                    status: crate::live_objects::passenger::Status::WaitShip,
                    inspection: false,
                    navy: false,
                },
            ),
            PromptSelection::Inspector => object == LiveObject::Inspector(
                Inspector {
                    current_port: drawn_port(first, n) as i32,
                    status: crate::live_objects::inspector::Status::Inspect,
                    is_inspector: true,
                    last_inspection: 0,
                },
            ),
            PromptSelection::Navy => object == LiveObject::Inspector(
                Inspector {
                    current_port: drawn_port(first, n) as i32,
                    status: crate::live_objects::inspector::Status::Inspect,
                    is_inspector: false,
                    last_inspection: 0,
                },
            ),
            PromptSelection::Exit => false,
        }
    }

    /// Makes the entity that `selection` asks for, with the two draws given.
    pub fn launch_for(
        runner: &LiveObjectRunner,
        selection: PromptSelection,
        pid: u32,
        first: u32,
        second: u32,
    ) -> (object: LiveObject)
        requires
            runner.lake.wf(),
            runner.lake.num_ports() > 0,
            selection != PromptSelection::Exit,
        ensures
            Launcher::launched(runner.lake.num_ports(), selection, pid, first, second, object),
    {
        match selection {
            PromptSelection::Ship => {
                let current_port = runner.lake.port_for_draw(first);
                LiveObject::Ship(Ship::new(SHIP_CAPACITY, current_port))
            },
            PromptSelection::Passenger => {
                let destination = signed_port(runner.lake.port_for_draw(first));
                let current_port = signed_port(runner.lake.port_for_draw(second));
                LiveObject::Passenger(Passenger::new(pid, current_port, destination))
            },
            PromptSelection::Inspector => {
                let current_port = signed_port(runner.lake.port_for_draw(first));
                LiveObject::Inspector(Inspector::new(current_port, true))
            },
            _ => {
                let current_port = signed_port(runner.lake.port_for_draw(first));
                LiveObject::Inspector(Inspector::new(current_port, false))
            },
        }
    }

    /// Makes the entity that `selection` asks for, its ports picked by chance.
    pub fn launch(runner: &LiveObjectRunner, selection: PromptSelection, pid: u32) -> (object:
        LiveObject)
        requires
            runner.lake.wf(),
            runner.lake.num_ports() > 0,
            selection != PromptSelection::Exit,
        ensures
            exists|first: u32, second: u32|
                Launcher::launched(runner.lake.num_ports(), selection, pid, first, second, object),
    {
        let first = random_u32();
        let second = random_u32();
        let object = Launcher::launch_for(runner, selection, pid, first, second);
        assert(Launcher::launched(runner.lake.num_ports(), selection, pid, first, second, object));
        object
    }
}

} // verus!
