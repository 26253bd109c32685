//! The passenger: boards a ship, hears at each port where it is, and leaves at
//! its destination, or earlier where it is made to.

use crate::error::LakeError;
use crate::live_objects::exchange::{IoKind, IoStep, step, steps_view};
use crate::live_objects::lake::{IpcAction, IpcKind, Lake, plan_view, signed_port};
use crate::live_objects::ship::{FORCED_DISEMBARK, INSPECTION};
use crate::names::{
    boarding_lock_name, boarding_pipe_name, confirmation_pipe_name, passenger_lock_name,
    passenger_lock_path, passenger_pipe_name, passenger_pipe_path,
};
use crate::random::random_u32;
use crate::text::{decimal, decimal_string, line_body, parse_i32, parse_signed, strip_newline};
use vstd::prelude::*;
use vstd::string::*;

verus! {

/// Where a passenger is in its journey.
#[derive(Clone, Copy, Debug, PartialEq, Eq, Structural)]
pub enum Status {
    /// In port, about to board.
    WaitShip,
    /// On board, until the ship calls.
    WaitDestination,
    /// On board, called by the ship, about to hear why.
    AskDestination,
    /// On board, about to say whether it leaves.
    AtDestination,
    /// Ashore at its destination.
    Arrive,
}

/// What a passenger does next.
#[derive(Clone, Copy, Debug, PartialEq, Eq, Structural)]
pub enum PassengerStep {
    /// Pass the turnstile of the current port and write the boarding line.
    TakeShip,
    /// Wait on the private semaphore.
    WaitForDestination,
    /// Read one line from the private notification channel.
    AskDestination,
    /// Write the reply on the confirmation channel of the current port.
    AtDestination,
    /// Stay ashore for a while, then pick where to go next.
    Arrive,
}

/// A passenger.
pub struct Passenger {
    /// The port that it wants to reach.
    pub destination: i32,
    /// The port that it was last told it is in.
    pub current_port: i32,
    /// Its identifier: the number of its process.
    pub id: u32,
    pub status: Status,
    /// An inspector asks for its fare.
    pub inspection: bool,
    /// It has been ordered off the ship.
    pub navy: bool,
}

/// What a passenger tells the ship, and whether it is reported for its fare.
#[derive(Clone, Copy, Debug, PartialEq, Eq, Structural)]
pub struct Confirmation {
    /// Its own identifier where it leaves the ship, zero where it stays.
    pub reply: u32,
    pub reported: bool,
}

/// The line by which passenger `id` asks to board, and by which it confirms
/// that it leaves: the identifier and a newline.
pub open spec fn identifier_line(id: u32) -> Seq<char> {
    decimal(id as nat) + seq!['\n']
}

/// What a line of a notification channel says: the signed number that stands
/// on it, if one does.
pub open spec fn notice_of(line: Seq<char>) -> Option<int> {
    parse_signed(line_body(line), i32::MIN as int, i32::MAX as int)
}

/// Whether a draw stands for a fare that is valid: one draw in ten does.
pub open spec fn fare_is_valid(draw: u32) -> bool {
    draw as int % 10 == 0
}

/// Milliseconds ashore that a draw stands for.
pub open spec fn dwell_time(draw: u32) -> int {
    draw as int % 1000
}

/// What a passenger makes for itself when it starts, in this order: its
/// notification channel, the file off which its semaphore is keyed, and the
/// semaphore. Each is made anew: one that is already there is a collision.
pub open spec fn passenger_creation_plan(id: u32) -> Seq<(IpcKind, Seq<char>)> {
    seq![
        (IpcKind::CreateFifo, passenger_pipe_name(id as nat)),
        (IpcKind::CreateLock, passenger_lock_name(id as nat)),
        (IpcKind::CreateSemaphore, passenger_lock_name(id as nat)),
    ]
}

/// What a passenger removes when it ends, whatever it was doing, in this
/// order: its semaphore, its notification channel, and the semaphore's file.
pub open spec fn passenger_destruction_plan(id: u32) -> Seq<(IpcKind, Seq<char>)> {
    seq![
        (IpcKind::RemoveSemaphore, passenger_lock_name(id as nat)),
        (IpcKind::Unlink, passenger_pipe_name(id as nat)),
        (IpcKind::Unlink, passenger_lock_name(id as nat)),
    ]
}

/// The steps by which the passenger `id` boards in `port`: it takes the
/// turnstile of the port, writes its line to the boarding channel, and gives
/// the turnstile up. Between the first and the last no other passenger
/// writes to that channel.
pub open spec fn boarding_steps(id: u32, port: nat) -> Seq<(IoKind, Seq<char>, Seq<char>)> {
    seq![
        (IoKind::Lock, boarding_lock_name(port), Seq::<char>::empty()),
        (IoKind::Write, boarding_pipe_name(port), identifier_line(id)),
        (IoKind::Unlock, boarding_lock_name(port), Seq::<char>::empty()),
    ]
}

/// The step by which the passenger `id` waits for the ship to call: it takes
/// one from its own semaphore.
pub open spec fn waiting_steps(id: u32) -> Seq<(IoKind, Seq<char>, Seq<char>)> {
    seq![(IoKind::Wait, passenger_lock_name(id as nat), Seq::<char>::empty())]
}

/// The step by which the passenger `id` hears the ship: it reads one line
/// from its own notification channel.
pub open spec fn asking_steps(id: u32) -> Seq<(IoKind, Seq<char>, Seq<char>)> {
    seq![(IoKind::Read, passenger_pipe_name(id as nat), Seq::<char>::empty())]
}

/// The step by which a passenger in `port` answers the ship: it writes its
/// reply to the confirmation channel of the port.
pub open spec fn confirming_steps(port: nat, reply: u32) -> Seq<(IoKind, Seq<char>, Seq<char>)> {
    seq![(IoKind::Write, confirmation_pipe_name(port), identifier_line(reply))]
}

impl Passenger {
    /// The step that belongs to the passenger's status.
    pub open spec fn step(&self) -> PassengerStep {
        match self.status {
            Status::WaitShip => PassengerStep::TakeShip,
            Status::WaitDestination => PassengerStep::WaitForDestination,
            Status::AskDestination => PassengerStep::AskDestination,
            Status::AtDestination => PassengerStep::AtDestination,
            Status::Arrive => PassengerStep::Arrive,
        }
    }

    /// The passenger after it has said whether it leaves, given the draw that
    /// decides on its fare. An order to leave goes first: it leaves. Next an
    /// inspection: with a valid fare it stays; without, it leaves, gives up
    /// its destination for the port it is in, and is reported. With neither,
    /// it leaves where it has reached its destination, and stays elsewhere.
    pub open spec fn confirmed(self, draw: u32) -> (Passenger, Confirmation) {
        if self.navy {
            (
                Passenger { status: Status::WaitShip, navy: false, ..self },
                Confirmation { reply: self.id, reported: false },
            )
        } else if self.inspection {
            if fare_is_valid(draw) {
                (
                    Passenger { status: Status::WaitDestination, inspection: false, ..self },
                    Confirmation { reply: 0, reported: false },
                )
            } else {
                (
                    Passenger {
                        status: Status::WaitShip,
                        inspection: false,
                        destination: self.current_port,
                        ..self
                    },
                    Confirmation { reply: self.id, reported: true },
                )
            }
        } else if self.current_port == self.destination {
            (
                Passenger { status: Status::Arrive, ..self },
                Confirmation { reply: self.id, reported: false },
            )
        } else {
            (
                Passenger { status: Status::WaitDestination, ..self },
                Confirmation { reply: 0, reported: false },
            )
        }
    }

    /// The passenger after it has heard `notice` from the ship: one sentinel
    /// raises the inspection, the other the order to leave, and any other
    /// number is the port that the ship has reached.
    pub open spec fn notified(self, notice: int) -> Passenger {
        if notice == INSPECTION {
            Passenger { status: Status::AtDestination, inspection: true, ..self }
        } else if notice == FORCED_DISEMBARK {
            Passenger { status: Status::AtDestination, navy: true, ..self }
        } else {
            Passenger { status: Status::AtDestination, current_port: notice as i32, ..self }
        }
    }

    /// The passenger `id`, waiting in `current_port` for a ship to `destination`.
    pub fn new(id: u32, current_port: i32, destination: i32) -> (passenger: Passenger)
        ensures
            passenger == (Passenger {
                destination,
                current_port,
                id,
                status: Status::WaitShip,
                inspection: false,
                navy: false,
            }),
    {
        Passenger {
            destination,
            current_port,
            id,
            status: Status::WaitShip,
            inspection: false,
            navy: false,
        }
    }

    /// The steps that make what the passenger owns, to be taken in this order,
    /// stopping at the first that fails.
    pub fn create_ipcs(&self) -> (plan: Vec<IpcAction>)
        ensures
            plan_view(plan@) == passenger_creation_plan(self.id),
    {
        let mut plan: Vec<IpcAction> = Vec::new();
        plan.push(IpcAction { kind: IpcKind::CreateFifo, path: passenger_pipe_path(self.id) });
        plan.push(IpcAction { kind: IpcKind::CreateLock, path: passenger_lock_path(self.id) });
        plan.push(
            IpcAction { kind: IpcKind::CreateSemaphore, path: passenger_lock_path(self.id) },
        );
        assert(plan_view(plan@) =~= passenger_creation_plan(self.id));
        plan
    }

    /// The steps that remove what the passenger owns, to be taken in this
    /// order when its process ends.
    pub fn destroy(&self) -> (plan: Vec<IpcAction>)
        ensures
            plan_view(plan@) == passenger_destruction_plan(self.id),
    {
        let mut plan: Vec<IpcAction> = Vec::new();
        plan.push(
            IpcAction { kind: IpcKind::RemoveSemaphore, path: passenger_lock_path(self.id) },
        );
        plan.push(IpcAction { kind: IpcKind::Unlink, path: passenger_pipe_path(self.id) });
        plan.push(IpcAction { kind: IpcKind::Unlink, path: passenger_lock_path(self.id) });
        assert(plan_view(plan@) =~= passenger_destruction_plan(self.id));
        plan
    }

    /// The steps by which the passenger boards in the port where it waits, to
    /// be taken in this order.
    pub fn boarding_steps(&self, lake: &Lake) -> (steps: Vec<IoStep>)
        requires
            lake.wf(),
            0 <= self.current_port < lake.num_ports(),
        ensures
            steps_view(steps@) == boarding_steps(self.id, self.current_port as nat),
    {
        let port = self.current_port as usize;
        let mut steps: Vec<IoStep> = Vec::new();
        steps.push(step(IoKind::Lock, lake.boarding_locks[port].clone()));
        steps.push(
            IoStep {
                kind: IoKind::Write,
                path: lake.boarding_pipes[port].clone(),
                line: self.identifier_line(),
            },
        );
        steps.push(step(IoKind::Unlock, lake.boarding_locks[port].clone()));
        assert(steps_view(steps@) =~= boarding_steps(self.id, self.current_port as nat));
        steps
    }

    /// The step by which the passenger waits for the ship to call.
    pub fn waiting_steps(&self) -> (steps: Vec<IoStep>)
        ensures
            steps_view(steps@) == waiting_steps(self.id),
    {
        let mut steps: Vec<IoStep> = Vec::new();
        steps.push(step(IoKind::Wait, passenger_lock_path(self.id)));
        assert(steps_view(steps@) =~= waiting_steps(self.id));
        steps
    }

    /// The step by which the passenger hears the ship; the line that it reads
    /// is what `ask_destination` takes in.
    pub fn asking_steps(&self) -> (steps: Vec<IoStep>)
        ensures
            steps_view(steps@) == asking_steps(self.id),
    {
        let mut steps: Vec<IoStep> = Vec::new();
        steps.push(step(IoKind::Read, passenger_pipe_path(self.id)));
        assert(steps_view(steps@) =~= asking_steps(self.id));
        steps
    }

    /// The step by which the passenger answers the ship with `reply`, in the
    /// port that it was last told.
    pub fn confirming_steps(&self, lake: &Lake, reply: u32) -> (steps: Vec<IoStep>)
        requires
            lake.wf(),
            0 <= self.current_port < lake.num_ports(),
        ensures
            steps_view(steps@) == confirming_steps(self.current_port as nat, reply),
    {
        let port = self.current_port as usize;
        let mut steps: Vec<IoStep> = Vec::new();
        steps.push(
            IoStep {
                kind: IoKind::Write,
                path: lake.confirmation_pipes[port].clone(),
                line: Passenger::reply_line(reply),
            },
        );
        assert(steps_view(steps@) =~= confirming_steps(self.current_port as nat, reply));
        steps
    }

    /// The name of the passenger's notification channel.
    pub fn pipe_path(&self) -> (path: String)
        ensures
            path@ == passenger_pipe_name(self.id as nat),
    {
        passenger_pipe_path(self.id)
    }

    /// The name of the file off which the passenger's semaphore is keyed.
    pub fn lock_path(&self) -> (path: String)
        ensures
            path@ == passenger_lock_name(self.id as nat),
    {
        passenger_lock_path(self.id)
    }

    /// The line that carries the passenger's identifier.
    pub fn identifier_line(&self) -> (line: String)
        ensures
            line@ == identifier_line(self.id),
    {
        proof {
            reveal_strlit("\n");
        }
        let mut line = decimal_string(self.id as u64);
        line.append("\n");
        line
    }

    /// The line that carries a reply: the number and a newline.
    pub fn reply_line(reply: u32) -> (line: String)
        ensures
            line@ == identifier_line(reply),
    {
        proof {
            reveal_strlit("\n");
        }
        let mut line = decimal_string(reply as u64);
        line.append("\n");
        line
    }

    /// Decides the next step; the passenger stays as it is until the step has
    /// been taken.
    pub fn tick(&self) -> (step: PassengerStep)
        ensures
            step == self.step(),
    {
        match self.status {
            Status::WaitShip => PassengerStep::TakeShip,
            Status::WaitDestination => PassengerStep::WaitForDestination,
            Status::AskDestination => PassengerStep::AskDestination,
            Status::AtDestination => PassengerStep::AtDestination,
            Status::Arrive => PassengerStep::Arrive,
        }
    }

    /// The passenger has written its boarding line: it is on board.
    pub fn take_ship(&mut self)
        ensures
            *final(self) == (Passenger { status: Status::WaitDestination, ..*old(self) }),
    {
        self.status = Status::WaitDestination;
    }

    /// The ship has called: the passenger goes to hear why.
    pub fn wait_for_destination(&mut self)
        ensures
            *final(self) == (Passenger { status: Status::AskDestination, ..*old(self) }),
    {
        self.status = Status::AskDestination;
    }

    /// Takes in the line that the ship wrote. A line that is no number is a
    /// violation, and leaves the passenger as it was.
    pub fn ask_destination(&mut self, line: &str) -> (r: Result<(), LakeError>)
        ensures
            match notice_of(line@) {
                Some(notice) => r is Ok && *final(self) == old(self).notified(notice),
                None => r == Err::<(), LakeError>(LakeError::ProtocolViolation) && *final(self)
                    == *old(self),
            },
    {
        match parse_i32(strip_newline(line)) {
            None => Err(LakeError::ProtocolViolation),
            Some(read_port) => {
                if read_port == INSPECTION {
                    self.inspection = true;
                } else if read_port == FORCED_DISEMBARK {
                    self.navy = true;
                } else {
                    self.current_port = read_port;
                }
                self.status = Status::AtDestination;
                Ok(())
            },
        }
    }

    /// Decides what to tell the ship, given the draw that decides on the fare.
    pub fn at_destination_for(&mut self, draw: u32) -> (confirmation: Confirmation)
        ensures
            (*final(self), confirmation) == old(self).confirmed(draw),
    {
        if self.navy {
            self.navy = false;
            self.status = Status::WaitShip;
            Confirmation { reply: self.id, reported: false }
        } else if self.inspection {
            self.inspection = false;
            let ticket = draw % 10;
            if ticket != 0 {
                self.destination = self.current_port;
                self.status = Status::WaitShip;
                Confirmation { reply: self.id, reported: true }
            } else {
                self.status = Status::WaitDestination;
                Confirmation { reply: 0, reported: false }
            }
        } else if self.current_port == self.destination {
            self.status = Status::Arrive;
            Confirmation { reply: self.id, reported: false }
        } else {
            self.status = Status::WaitDestination;
            Confirmation { reply: 0, reported: false }
        }
    }

    /// Decides what to tell the ship; under inspection, chance decides on the
    /// fare. Whatever the draw, the outcome is one that some draw gives.
    pub fn at_destination(&mut self) -> (confirmation: Confirmation)
        ensures
            exists|draw: u32| (*final(self), confirmation) == old(self).confirmed(draw),
    {
        let draw = random_u32();
        let confirmation = self.at_destination_for(draw);
        assert((*self, confirmation) == old(self).confirmed(draw));
        confirmation
    }

    /// The passenger has been ashore for the time that `dwell_draw` stands
    /// for, which is returned in milliseconds; it now wants to go to the port
    /// of `lake` that `port_draw` picks.
    pub fn arrive_for(&mut self, lake: &Lake, dwell_draw: u32, port_draw: u32) -> (msecs: u32)
        requires
            lake.wf(),
            lake.num_ports() > 0,
        ensures
            msecs == dwell_time(dwell_draw),
            *final(self) == (Passenger {
                status: Status::WaitShip,
                destination: (port_draw as int % lake.num_ports() as int) as i32,
                ..*old(self)
            }),
    {
        let msecs = dwell_draw % 1000;
        self.destination = signed_port(lake.port_for_draw(port_draw));
        self.status = Status::WaitShip;
        msecs
    }

    /// The passenger goes ashore for under a second, the time returned in
    /// milliseconds, and then wants to go to a port of `lake` picked by chance.
    pub fn arrive(&mut self, lake: &Lake) -> (msecs: u32)
        requires
            lake.wf(),
            lake.num_ports() > 0,
        ensures
            msecs < 1000,
            final(self).status == Status::WaitShip,
            0 <= final(self).destination < lake.num_ports(),
            final(self).current_port == old(self).current_port,
            final(self).id == old(self).id,
            final(self).inspection == old(self).inspection,
            final(self).navy == old(self).navy,
    {
        let dwell_draw = random_u32();
        let port_draw = random_u32();
        let msecs = self.arrive_for(lake, dwell_draw, port_draw);
        msecs
    }
}

} // verus!
