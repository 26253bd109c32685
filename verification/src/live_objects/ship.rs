//! The ship: sails from port to port, lets passengers off, takes passengers on.

use crate::error::LakeError;
use crate::handlers::signal_handler::GenericHandler;
use crate::signal::SignalHandler;
use crate::live_objects::exchange::{IoKind, IoStep, step, steps_view};
use crate::live_objects::lake::{Lake, next_port, signed_port};
use crate::names::{
    confirmation_pipe_name, passenger_lock_name, passenger_lock_path, passenger_pipe_name,
    passenger_pipe_path,
};
use crate::random::random_u32;
use crate::text::{
    lemma_parse_unsigned_range, line_body, parse_u32, parse_unsigned, signed_decimal,
    signed_decimal_string, strip_newline,
};
use vstd::prelude::*;
use vstd::string::*;

verus! {

/// Written to a passenger in place of a port number: the ship is being inspected.
pub const INSPECTION: i32 = -1;

/// Written to a passenger in place of a port number: everybody leaves the ship.
pub const FORCED_DISEMBARK: i32 = -2;

/// Seconds that a ship with free places waits for the next passenger.
pub const BOARDING_WAIT_SECS: u32 = 10;

/// Where a ship is in its round.
#[derive(Clone, Copy, Debug, PartialEq, Eq, Structural)]
pub enum Status {
    /// On the way to its destination.
    Travel,
    /// In port, telling those on board where they are.
    LeavePassengers,
    /// In port, taking passengers on.
    PickPassengers,
    /// Leaving the port.
    Disembark,
}

/// A ship and those on board.
pub struct Ship {
    /// The number of passengers that it can still take.
    pub current_capacity: u32,
    /// The port that it sails to, or lies in.
    pub destination: u32,
    /// The passengers on board, in the order in which they came.
    pub passenger_vec: Vec<u32>,
    /// Notes that the wait for a passenger has run out.
    pub sigalarm_handler: GenericHandler,
    /// Notes that an inspector has called.
    pub sigusr_handler: GenericHandler,
    pub status: Status,
}

/// What a line of the confirmation channel says: the unsigned number that
/// stands on it, if one does.
pub open spec fn reply_of(line: Seq<char>) -> Option<int> {
    parse_unsigned(line_body(line), u32::MAX as int)
}

/// The lines of a vector of texts.
pub open spec fn lines_view(lines: Seq<String>) -> Seq<Seq<char>> {
    Seq::new(lines.len(), |i: int| lines[i]@)
}

/// Every reply is a number.
pub open spec fn replies_well_formed(replies: Seq<Seq<char>>) -> bool {
    forall|i: int| 0 <= i < replies.len() ==> (#[trigger] reply_of(replies[i])) is Some
}

/// The numbers that well-formed replies hold.
pub open spec fn reply_values(replies: Seq<Seq<char>>) -> Seq<u32> {
    Seq::new(replies.len(), |i: int| reply_of(replies[i]).unwrap() as u32)
}

/// Every passenger on board was heard: there is one reply for each, in their
/// order, and each reply is a number.
pub open spec fn heard(onboard: Seq<u32>, replies: Seq<Seq<char>>) -> bool {
    replies.len() == onboard.len() && replies_well_formed(replies)
}

/// Those on board whose reply was zero, in their order. The reply at a place
/// is that of the passenger at the same place: zero says that it stays, and
/// any other number that it leaves.
pub open spec fn stayers(onboard: Seq<u32>, values: Seq<u32>) -> Seq<u32>
    decreases onboard.len(),
{
    if onboard.len() == 0 || values.len() == 0 {
        Seq::empty()
    } else if values.last() == 0 {
        stayers(onboard.drop_last(), values.drop_last()).push(onboard.last())
    } else {
        stayers(onboard.drop_last(), values.drop_last())
    }
}

/// Reads one line of the confirmation channel: nobody for a zero, else the
/// passenger that leaves.
pub fn parse_reply(line: &str) -> (r: Result<Option<u32>, LakeError>)
    ensures
        match reply_of(line@) {
            Some(v) => r == Ok::<Option<u32>, LakeError>(
                if v == 0 {
                    None
                } else {
                    Some(v as u32)
                },
            ),
            None => r == Err::<Option<u32>, LakeError>(LakeError::ProtocolViolation),
        },
{
    proof {
        lemma_parse_unsigned_range(line_body(line@), u32::MAX as int);
    }
    match parse_u32(strip_newline(line)) {
        None => Err(LakeError::ProtocolViolation),
        Some(reply) => if reply == 0 {
            Ok(None)
        } else {
            Ok(Some(reply))
        },
    }
}

/// What a ship does next.
#[derive(Clone, Copy, Debug, PartialEq, Eq, Structural)]
pub enum ShipStep {
    /// Tell everybody on board that an inspector has called, and hear who leaves.
    Inspect,
    /// Sail, then take the occupancy lock of the destination.
    Travel,
    /// Tell everybody on board which port this is, and hear who leaves.
    LeavePassengers,
    /// Wait, for a bounded time, for one passenger on the boarding channel.
    PickPassenger,
    /// Nothing: the ship is full and has made ready to leave.
    Full,
    /// Linger, then give up the occupancy lock of the port.
    Disembark,
}

/// The line that tells a passenger the port `port`, or one of the two
/// sentinels: the number and a newline.
pub open spec fn notification_line(port: int) -> Seq<char> {
    signed_decimal(port) + seq!['\n']
}

/// The steps by which one passenger is told: its semaphore is signalled, so
/// that it listens; the line is written to its channel; and its reply is read
/// from the confirmation channel of the port.
pub open spec fn told(id: u32, line: Seq<char>, confirmation: Seq<char>) -> Seq<
    (IoKind, Seq<char>, Seq<char>),
> {
    seq![
        (IoKind::Signal, passenger_lock_name(id as nat), Seq::<char>::empty()),
        (IoKind::Write, passenger_pipe_name(id as nat), line),
        (IoKind::Read, confirmation, Seq::<char>::empty()),
    ]
}

/// The steps of a notification pass: the passengers on board are told one
/// after the other, in their order, and each one's reply is read before the
/// next is told, so that no two replies are ever on the way at once.
pub open spec fn notification_steps(onboard: Seq<u32>, line: Seq<char>, confirmation: Seq<char>)
    -> Seq<(IoKind, Seq<char>, Seq<char>)>
    decreases onboard.len(),
{
    if onboard.len() == 0 {
        Seq::empty()
    } else {
        notification_steps(onboard.drop_last(), line, confirmation) + told(
            onboard.last(),
            line,
            confirmation,
        )
    }
}

/// What came over the boarding channel: a passenger, nobody, or text that
/// names no passenger. Nothing was read where the channel could not be
/// opened or gave no line.
pub open spec fn boarding_of(line: Option<Seq<char>>) -> Result<Option<u32>, LakeError> {
    match line {
        Some(text) if text.len() > 0 => match parse_unsigned(line_body(text), u32::MAX as int) {
            Some(id) => Ok(Some(id as u32)),
            None => Err(LakeError::ProtocolViolation),
        },
        _ => Ok(None),
    }
}

/// Milliseconds of sailing that a draw stands for.
pub open spec fn travel_time(draw: u32) -> int {
    draw as int % 5000
}

/// Milliseconds of lingering in port that a draw stands for.
pub open spec fn disembark_time(draw: u32) -> int {
    draw as int % 5000 + 500
}

impl Ship {
    /// The passengers on board.
    pub open spec fn onboard(&self) -> Seq<u32> {
        self.passenger_vec@
    }

    /// What the ship does next: an inspection goes before everything else;
    /// without one, the step that belongs to its status.
    pub open spec fn step(&self) -> ShipStep {
        if self.sigusr_handler.noted() {
            ShipStep::Inspect
        } else {
            match self.status {
                Status::Travel => ShipStep::Travel,
                Status::LeavePassengers => ShipStep::LeavePassengers,
                Status::PickPassengers => if self.current_capacity > 0 {
                    ShipStep::PickPassenger
                } else {
                    ShipStep::Full
                },
                Status::Disembark => ShipStep::Disembark,
            }
        }
    }

    /// The places that are taken and those that are free can be counted
    /// together.
    pub open spec fn wf(&self) -> bool {
        self.current_capacity + self.passenger_vec@.len() <= u32::MAX
    }

    /// The ship is `other` but for its status.
    pub open spec fn same_but_status(&self, other: &Ship) -> bool {
        &&& self.current_capacity == other.current_capacity
        &&& self.destination == other.destination
        &&& self.passenger_vec == other.passenger_vec
        &&& self.sigalarm_handler == other.sigalarm_handler
        &&& self.sigusr_handler == other.sigusr_handler
    }

    /// An empty ship with `current_capacity` places, on its way to `destination`.
    pub fn new(current_capacity: u32, destination: u32) -> (ship: Ship)
        ensures
            ship.current_capacity == current_capacity,
            ship.destination == destination,
            ship.onboard() == Seq::<u32>::empty(),
            ship.status == Status::Travel,
            !ship.sigalarm_handler.noted(),
            !ship.sigusr_handler.noted(),
            ship.wf(),
    {
        Ship {
            current_capacity,
            destination,
            passenger_vec: Vec::new(),
            sigalarm_handler: GenericHandler::new(),
            sigusr_handler: GenericHandler::new(),
            status: Status::Travel,
        }
    }

    /// Decides the next step. A full ship in port makes ready to leave; in
    /// every other case the ship stays as it is until the step has been taken.
    pub fn tick(&mut self) -> (step: ShipStep)
        ensures
            step == old(self).step(),
            final(self).same_but_status(old(self)),
            final(self).status == if step == ShipStep::Full {
                Status::Disembark
            } else {
                old(self).status
            },
    {
        if self.sigusr_handler.get_handled() {
            return ShipStep::Inspect;
        }
        match self.status {
            Status::Travel => ShipStep::Travel,
            Status::LeavePassengers => ShipStep::LeavePassengers,
            Status::PickPassengers => {
                if self.current_capacity > 0 {
                    ShipStep::PickPassenger
                } else {
                    self.status = Status::Disembark;
                    ShipStep::Full
                }
            },
            Status::Disembark => ShipStep::Disembark,
        }
    }

    /// Milliseconds to sail, from a draw.
    pub fn travel_time_for(draw: u32) -> (msecs: u32)
        ensures
            msecs == travel_time(draw),
    {
        draw % 5000
    }

    /// Milliseconds to linger in port, from a draw.
    pub fn disembark_time_for(draw: u32) -> (msecs: u32)
        ensures
            msecs == disembark_time(draw),
    {
        draw % 5000 + 500
    }

    /// Milliseconds to sail, picked by chance: under five seconds.
    pub fn draw_travel_time() -> (msecs: u32)
        ensures
            msecs < 5000,
    {
        Ship::travel_time_for(random_u32())
    }

    /// Milliseconds to linger in port, picked by chance: from half a second to
    /// under five and a half.
    pub fn draw_disembark_time() -> (msecs: u32)
        ensures
            500 <= msecs < 5500,
    {
        Ship::disembark_time_for(random_u32())
    }

    /// The ship has taken the occupancy lock of its destination: it lies in port.
    pub fn travel(&mut self)
        ensures
            final(self).same_but_status(old(self)),
            final(self).status == Status::LeavePassengers,
    {
        self.status = Status::LeavePassengers;
    }

    /// The ship has given up the occupancy lock of its port: it sails for the
    /// next port of `lake`.
    pub fn disembark(&mut self, lake: &Lake)
        requires
            lake.wf(),
            lake.num_ports() > 0,
            old(self).destination < u32::MAX,
        ensures
            final(self).destination == next_port(
                old(self).destination as int,
                lake.num_ports() as int,
            ),
            final(self).status == Status::Travel,
            final(self).current_capacity == old(self).current_capacity,
            final(self).passenger_vec == old(self).passenger_vec,
            final(self).sigalarm_handler == old(self).sigalarm_handler,
            final(self).sigusr_handler == old(self).sigusr_handler,
    {
        self.destination = lake.get_next_port(self.destination);
        self.status = Status::Travel;
    }

    /// The destination as it is written to passengers.
    pub fn arrival_value(&self) -> (port: i32)
        requires
            self.destination <= i32::MAX,
        ensures
            port == self.destination,
    {
        signed_port(self.destination)
    }

    /// The steps of a notification pass that tells everybody on board `port`,
    /// which is the port itself or a sentinel, to be taken in this order. The
    /// lines that its reading steps give, in their order, are the replies.
    pub fn notifications(&self, port: i32, lake: &Lake) -> (steps: Vec<IoStep>)
        requires
            lake.wf(),
            self.destination < lake.num_ports(),
        ensures
            steps_view(steps@) == notification_steps(
                self.onboard(),
                notification_line(port as int),
                confirmation_pipe_name(self.destination as nat),
            ),
    {
        let ghost line_text = notification_line(port as int);
        let ghost confirmation = confirmation_pipe_name(self.destination as nat);
        let mut steps: Vec<IoStep> = Vec::new();
        let mut i: usize = 0;
        assert(self.onboard().subrange(0, 0) =~= Seq::<u32>::empty());
        assert(steps_view(steps@) =~= Seq::empty());
        while i < self.passenger_vec.len()
            invariant
                0 <= i <= self.passenger_vec@.len(),
                lake.wf(),
                self.destination < lake.num_ports(),
                line_text == notification_line(port as int),
                confirmation == confirmation_pipe_name(self.destination as nat),
                steps_view(steps@) == notification_steps(
                    self.onboard().subrange(0, i as int),
                    line_text,
                    confirmation,
                ),
            decreases self.passenger_vec@.len() - i,
        {
            let passenger = self.passenger_vec[i];
            proof {
                reveal_strlit("\n");
            }
            let mut line = signed_decimal_string(port as i64);
            line.append("\n");
            assert(line@ =~= line_text);
            let ghost before = steps_view(steps@);
            steps.push(step(IoKind::Signal, passenger_lock_path(passenger)));
            steps.push(IoStep { kind: IoKind::Write, path: passenger_pipe_path(passenger), line });
            steps.push(
                step(IoKind::Read, lake.confirmation_pipes[self.destination as usize].clone()),
            );
            proof {
                let people = self.onboard().subrange(0, i + 1);
                assert(people.drop_last() =~= self.onboard().subrange(0, i as int));
                assert(people.last() == passenger);
                assert(steps_view(steps@) =~= before + told(passenger, line_text, confirmation));
            }
            i += 1;
        }
        assert(self.onboard().subrange(0, i as int) =~= self.onboard());
        steps
    }

    /// Takes in the replies of a notification pass: one for each passenger on
    /// board, in the order in which the passengers were told. A passenger
    /// whose reply is not zero leaves the ship and frees a place; the ship
    /// then takes passengers on. Replies that are too few or too many, or of
    /// which one is no number, are a violation, and leave the ship as it was.
    pub fn notify_passengers(&mut self, replies: &Vec<String>) -> (r: Result<(), LakeError>)
        requires
            old(self).wf(),
        ensures
            !heard(old(self).onboard(), lines_view(replies@)) ==> r == Err::<(), LakeError>(
                LakeError::ProtocolViolation,
            ) && *final(self) == *old(self),
            heard(old(self).onboard(), lines_view(replies@)) ==> {
                &&& r is Ok
                &&& final(self).onboard() == stayers(
                    old(self).onboard(),
                    reply_values(lines_view(replies@)),
                )
                &&& final(self).current_capacity == old(self).current_capacity + (old(
                    self,
                ).onboard().len() - final(self).onboard().len())
                &&& final(self).status == Status::PickPassengers
                &&& final(self).destination == old(self).destination
                &&& final(self).sigalarm_handler == old(self).sigalarm_handler
                &&& final(self).sigusr_handler == old(self).sigusr_handler
                &&& final(self).wf()
            },
    {
        let ghost lines = lines_view(replies@);
        let ghost onboard = self.passenger_vec@;
        let count = self.passenger_vec.len();
        if replies.len() != count {
            return Err(LakeError::ProtocolViolation);
        }
        let mut values: Vec<u32> = Vec::new();
        let mut i: usize = 0;
        while i < count
            invariant
                0 <= i <= count,
                count == replies@.len(),
                lines == lines_view(replies@),
                values@.len() == i,
                forall|k: int|
                    0 <= k < i ==> (#[trigger] reply_of(lines[k])) is Some && values@[k]
                        == reply_of(lines[k]).unwrap() as u32,
                *self == *old(self),
            decreases count - i,
        {
            assert(lines[i as int] == replies@[i as int]@);
            match parse_reply(replies[i].as_str()) {
                Err(e) => {
                    assert(!replies_well_formed(lines));
                    return Err(e);
                },
                Ok(None) => {
                    values.push(0);
                },
                Ok(Some(reply)) => {
                    values.push(reply);
                },
            }
            i += 1;
        }
        assert(values@ =~= reply_values(lines));
        let mut kept: Vec<u32> = Vec::new();
        let mut freed: u32 = 0;
        let mut j: usize = 0;
        assert(onboard.subrange(0, 0) =~= Seq::<u32>::empty());
        while j < count
            invariant
                0 <= j <= count,
                count == onboard.len(),
                count == values@.len(),
                onboard == self.passenger_vec@,
                *self == *old(self),
                self.wf(),
                kept@ == stayers(onboard.subrange(0, j as int), values@.subrange(0, j as int)),
                freed + kept@.len() == j,
            decreases count - j,
        {
            proof {
                let people = onboard.subrange(0, j + 1);
                let said = values@.subrange(0, j + 1);
                assert(people.drop_last() =~= onboard.subrange(0, j as int));
                assert(said.drop_last() =~= values@.subrange(0, j as int));
                assert(people.last() == onboard[j as int]);
                assert(said.last() == values@[j as int]);
            }
            if values[j] == 0 {
                kept.push(self.passenger_vec[j]);
            } else {
                freed += 1;
            }
            j += 1;
        }
        assert(onboard.subrange(0, count as int) =~= onboard);
        assert(values@.subrange(0, count as int) =~= values@);
        self.passenger_vec = kept;
        self.current_capacity += freed;
        self.status = Status::PickPassengers;
        Ok(())
    }

    /// Takes in the replies to the arrival in port.
    pub fn leave_passenger(&mut self, replies: &Vec<String>) -> (r: Result<(), LakeError>)
        requires
            old(self).wf(),
        ensures
            !heard(old(self).onboard(), lines_view(replies@)) ==> r == Err::<(), LakeError>(
                LakeError::ProtocolViolation,
            ) && *final(self) == *old(self),
            heard(old(self).onboard(), lines_view(replies@)) ==> {
                &&& r is Ok
                &&& final(self).onboard() == stayers(
                    old(self).onboard(),
                    reply_values(lines_view(replies@)),
                )
                &&& final(self).current_capacity == old(self).current_capacity + (old(
                    self,
                ).onboard().len() - final(self).onboard().len())
                &&& final(self).status == Status::PickPassengers
                &&& final(self).destination == old(self).destination
                &&& final(self).sigalarm_handler == old(self).sigalarm_handler
                &&& final(self).sigusr_handler == old(self).sigusr_handler
                &&& final(self).wf()
            },
    {
        self.notify_passengers(replies)
    }

    /// Takes in the replies to an inspection, and forgets the inspector's call.
    pub fn inspect_passengers(&mut self, replies: &Vec<String>) -> (r: Result<(), LakeError>)
        requires
            old(self).wf(),
        ensures
            !heard(old(self).onboard(), lines_view(replies@)) ==> r == Err::<(), LakeError>(
                LakeError::ProtocolViolation,
            ) && *final(self) == *old(self),
            heard(old(self).onboard(), lines_view(replies@)) ==> {
                &&& r is Ok
                &&& final(self).onboard() == stayers(
                    old(self).onboard(),
                    reply_values(lines_view(replies@)),
                )
                &&& final(self).current_capacity == old(self).current_capacity + (old(
                    self,
                ).onboard().len() - final(self).onboard().len())
                &&& final(self).status == Status::PickPassengers
                &&& final(self).destination == old(self).destination
                &&& final(self).sigalarm_handler == old(self).sigalarm_handler
                &&& !final(self).sigusr_handler.noted()
                &&& final(self).wf()
            },
    {
        match self.notify_passengers(replies) {
            Ok(()) => {
                self.sigusr_handler.reset();
                Ok(())
            },
            Err(e) => Err(e),
        }
    }

    /// Takes in what the wait on the boarding channel gave: the line that was
    /// read, or nothing where the channel could not be opened or read. A
    /// passenger that wrote its identifier comes on board and takes a place.
    /// Where the wait has run out, the ship makes ready to leave.
    pub fn pick_passenger(&mut self, line: Option<&str>) -> (r: Result<Option<u32>, LakeError>)
        requires
            old(self).current_capacity > 0,
        ensures
            r == boarding_of(
                match line {
                    Some(text) => Some(text@),
                    None => None,
                },
            ),
            r is Err ==> *final(self) == *old(self),
            r is Ok ==> {
                &&& final(self).onboard() == match r.unwrap() {
                    Some(id) => old(self).onboard().push(id),
                    None => old(self).onboard(),
                }
                &&& final(self).current_capacity == match r.unwrap() {
                    Some(_) => old(self).current_capacity - 1,
                    None => old(self).current_capacity as int,
                }
                &&& final(self).status == if old(self).sigalarm_handler.noted() {
                    Status::Disembark
                } else {
                    old(self).status
                }
                &&& !final(self).sigalarm_handler.noted()
                &&& final(self).sigusr_handler == old(self).sigusr_handler
                &&& final(self).destination == old(self).destination
                &&& old(self).wf() ==> final(self).wf()
            },
    {
        let parsed_data = match line {
            None => None,
            Some(text) => {
                if text.unicode_len() == 0 {
                    None
                } else {
                    proof {
                        lemma_parse_unsigned_range(line_body(text@), u32::MAX as int);
                    }
                    match parse_u32(strip_newline(text)) {
                        None => {
                            return Err(LakeError::ProtocolViolation);
                        },
                        Some(passenger_id) => {
                            self.current_capacity -= 1;
                            self.passenger_vec.push(passenger_id);
                            Some(passenger_id)
                        },
                    }
                }
            },
        };
        if self.sigalarm_handler.get_handled() {
            self.status = Status::Disembark;
            self.sigalarm_handler.reset();
        }
        Ok(parsed_data)
    }
}

} // verus!
