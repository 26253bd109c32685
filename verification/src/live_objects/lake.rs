//! The lake: the ports, the names of what each port owns, and the table that
//! says which ship lies in which port.

use crate::error::{classified, classify, EEXIST, ENOENT, LakeError};
use crate::live_objects::exchange::{step, steps_view, IoKind, IoStep};
use crate::misc::config::{Config, lookup};
use crate::names::{
    boarding_lock_name, boarding_lock_path, boarding_pipe_name, boarding_pipe_path,
    confirmation_pipe_name, confirmation_pipe_path, MAIN_LOCK_FILENAME, NUM_PORTS_PARAM,
    numbered, port_lock_name, port_lock_path, STATUS_FILE,
};
use crate::random::random_u32;
use crate::text::{lemma_parse_unsigned_range, parse_u32, parse_unsigned};
use vstd::prelude::*;
use vstd::string::*;

verus! {

/// Permissions with which channels are made.
pub const FIFO_MODE: u32 = 0o644;

/// What is to be done to a named resource.
#[derive(Clone, Copy, Debug, PartialEq, Eq, Structural)]
pub enum IpcKind {
    /// Make the lock file and open it; it must not be there yet.
    CreateLock,
    /// Open the lock file; it must be there.
    OpenLock,
    /// Make the FIFO, with `FIFO_MODE`; it must not be there yet.
    CreateFifo,
    /// Make the shared segment that is keyed off the file, with one slot for
    /// each port, and attach it; it must not be there yet.
    CreateSharedTable,
    /// Attach the shared segment that is keyed off the file; it must be there.
    AttachSharedTable,
    /// Find the file or FIFO in the file system, without opening it; it must
    /// be there.
    Expect,
    /// Make the semaphore that is keyed off the file; it must not be there yet.
    CreateSemaphore,
    /// Remove the semaphore that is keyed off the file.
    RemoveSemaphore,
    /// Write the lifecycle record, as it now stands, to its file.
    SaveRecord,
    /// Give up the lock on the file of the lifecycle record.
    ReleaseRecord,
    /// Detach the shared segment that is keyed off the file, and remove it.
    RemoveSharedTable,
    /// Remove the file or FIFO from the file system.
    Unlink,
}

/// One step of creating or destroying the lake's resources.
pub struct IpcAction {
    pub kind: IpcKind,
    pub path: String,
}

/// The ports of a lake, by number: for each the names of its occupancy lock,
/// its boarding turnstile, its boarding channel and its confirmation channel,
/// and its slot of the occupancy table.
///
/// `status_mem` is the table as it was last seen. The shared segment belongs to
/// every participant at once, so the caller loads it while it holds the
/// table's lock, and stores it back before it lets go.
pub struct Lake {
    pub lake_ports: Vec<String>,
    pub boarding_locks: Vec<String>,
    pub boarding_pipes: Vec<String>,
    pub confirmation_pipes: Vec<String>,
    pub status_mem: Vec<u32>,
}

/// The number of ports that a configuration asks for: the unsigned number under
/// the key `lake ports`, if one stands there. It is small enough for every
/// port to be told to passengers as a number that is not negative, and so
/// never to be taken for one of the sentinels.
pub open spec fn configured_ports(entries: Seq<(Seq<char>, Seq<char>)>) -> Option<int> {
    match lookup(entries, NUM_PORTS_PARAM@) {
        Some(value) => parse_unsigned(value, i32::MAX as int),
        None => None,
    }
}

/// Who lies in a port, by its slot of the table: nobody when the slot is zero.
pub open spec fn occupant(slot: u32) -> Option<u32> {
    if slot == 0 {
        None
    } else {
        Some(slot)
    }
}

/// The table after the ship `pid` has taken `port`.
pub open spec fn published(table: Seq<u32>, port: int, pid: u32) -> Seq<u32> {
    table.update(port, pid)
}

/// The table after `port` has been left.
pub open spec fn cleared(table: Seq<u32>, port: int) -> Seq<u32> {
    table.update(port, 0)
}

/// A step on a lock or on the table, which has no line.
pub open spec fn bare(kind: IoKind, path: Seq<char>) -> (IoKind, Seq<char>, Seq<char>) {
    (kind, path, Seq::<char>::empty())
}

/// The steps by which a ship takes `port`: it takes the occupancy lock of the
/// port, which blocks while another ship lies there; then, under the table's
/// lock, it reads the table, enters itself, and writes the table back.
pub open spec fn taking_steps(port: nat) -> Seq<(IoKind, Seq<char>, Seq<char>)> {
    seq![
        bare(IoKind::Lock, port_lock_name(port)),
        bare(IoKind::Lock, STATUS_FILE@),
        bare(IoKind::Load, STATUS_FILE@),
        bare(IoKind::Store, STATUS_FILE@),
        bare(IoKind::Unlock, STATUS_FILE@),
    ]
}

/// The steps by which a ship leaves `port`: under the table's lock it reads
/// the table, takes itself out, and writes the table back; only then does it
/// give up the occupancy lock of the port.
pub open spec fn leaving_steps(port: nat) -> Seq<(IoKind, Seq<char>, Seq<char>)> {
    seq![
        bare(IoKind::Lock, STATUS_FILE@),
        bare(IoKind::Load, STATUS_FILE@),
        bare(IoKind::Store, STATUS_FILE@),
        bare(IoKind::Unlock, STATUS_FILE@),
        bare(IoKind::Unlock, port_lock_name(port)),
    ]
}

/// The steps by which the table is looked at: it is read under its lock.
pub open spec fn looking_steps() -> Seq<(IoKind, Seq<char>, Seq<char>)> {
    seq![
        bare(IoKind::Lock, STATUS_FILE@),
        bare(IoKind::Load, STATUS_FILE@),
        bare(IoKind::Unlock, STATUS_FILE@),
    ]
}

/// The port that follows `port` on a lake of `n` ports.
pub open spec fn next_port(port: int, n: int) -> int {
    (port + 1) % n
}

/// A port number as passengers hear and keep it: the same number, signed.
pub fn signed_port(port: u32) -> (value: i32)
    requires
        port <= i32::MAX,
    ensures
        value == port,
{
    port as i32
}

/// A plan as kinds and names.
pub open spec fn plan_view(plan: Seq<IpcAction>) -> Seq<(IpcKind, Seq<char>)> {
    Seq::new(plan.len(), |i: int| (plan[i].kind, plan[i].path@))
}

/// What the first participant does, in this order: make the table's lock
/// file and the occupancy table, then for every port its occupancy lock, then
/// for every port its boarding turnstile, its boarding channel, and its
/// confirmation channel. Each of them is made anew: one that is already there
/// is a collision.
pub open spec fn creation_plan(n: nat) -> Seq<(IpcKind, Seq<char>)> {
    seq![(IpcKind::CreateLock, STATUS_FILE@), (IpcKind::CreateSharedTable, STATUS_FILE@)]
        + Seq::new(n, |p: int| (IpcKind::CreateLock, port_lock_name(p as nat))) + Seq::new(
        n,
        |p: int| (IpcKind::CreateLock, boarding_lock_name(p as nat)),
    ) + Seq::new(n, |p: int| (IpcKind::CreateFifo, boarding_pipe_name(p as nat))) + Seq::new(
        n,
        |p: int| (IpcKind::CreateFifo, confirmation_pipe_name(p as nat)),
    )
}

/// What every later participant does, in this order: open the table's lock
/// file, attach the occupancy table, open every occupancy lock, then find for
/// every port its boarding turnstile, its boarding channel, and its
/// confirmation channel. Each of them is expected to be there: one that is
/// missing is an error, and nothing is made in its place.
pub open spec fn attach_plan(n: nat) -> Seq<(IpcKind, Seq<char>)> {
    seq![(IpcKind::OpenLock, STATUS_FILE@), (IpcKind::AttachSharedTable, STATUS_FILE@)]
        + Seq::new(n, |p: int| (IpcKind::OpenLock, port_lock_name(p as nat))) + Seq::new(
        n,
        |p: int| (IpcKind::Expect, boarding_lock_name(p as nat)),
    ) + Seq::new(n, |p: int| (IpcKind::Expect, boarding_pipe_name(p as nat))) + Seq::new(
        n,
        |p: int| (IpcKind::Expect, confirmation_pipe_name(p as nat)),
    )
}

/// The step that takes back what a step has made, if the step makes anything.
pub open spec fn removal_of(kind: IpcKind) -> Option<IpcKind> {
    match kind {
        IpcKind::CreateLock => Some(IpcKind::Unlink),
        IpcKind::CreateFifo => Some(IpcKind::Unlink),
        IpcKind::CreateSharedTable => Some(IpcKind::RemoveSharedTable),
        IpcKind::CreateSemaphore => Some(IpcKind::RemoveSemaphore),
        _ => None,
    }
}

/// How a step that failed counts, by the error number that the system gave:
/// what was to be made and is there already is a collision, what was to be
/// found and is not there is missing, and every other failure is one of the
/// system.
pub open spec fn step_failure(kind: IpcKind, errno: i32) -> LakeError {
    classified(errno, removal_of(kind) is Some)
}

/// The steps that take back what the steps `done` have made, the last made
/// first: a step that made nothing is passed over.
pub open spec fn undone(done: Seq<(IpcKind, Seq<char>)>) -> Seq<(IpcKind, Seq<char>)>
    decreases done.len(),
{
    if done.len() == 0 {
        Seq::empty()
    } else {
        match removal_of(done.last().0) {
            Some(kind) => seq![(kind, done.last().1)] + undone(done.drop_last()),
            None => undone(done.drop_last()),
        }
    }
}

/// What the last participant does, in this order: remove the occupancy table,
/// then every occupancy lock, every boarding turnstile, every boarding channel,
/// every confirmation channel, and at last the table's lock file.
pub open spec fn destruction_plan(n: nat) -> Seq<(IpcKind, Seq<char>)> {
    seq![(IpcKind::RemoveSharedTable, STATUS_FILE@)] + Seq::new(
        n,
        |p: int| (IpcKind::Unlink, port_lock_name(p as nat)),
    ) + Seq::new(n, |p: int| (IpcKind::Unlink, boarding_lock_name(p as nat))) + Seq::new(
        n,
        |p: int| (IpcKind::Unlink, boarding_pipe_name(p as nat)),
    ) + Seq::new(n, |p: int| (IpcKind::Unlink, confirmation_pipe_name(p as nat)))
        + seq![(IpcKind::Unlink, STATUS_FILE@)]
}

/// Adds one action of `kind` for each of `names`, in their order.
fn append_actions(plan: &mut Vec<IpcAction>, kind: IpcKind, names: &Vec<String>)
    ensures
        plan_view(final(plan)@) == plan_view(old(plan)@) + Seq::new(
            names@.len(),
            |i: int| (kind, names@[i]@),
        ),
{
    let ghost before = plan_view(plan@);
    let mut i: usize = 0;
    while i < names.len()
        invariant
            0 <= i <= names@.len(),
            plan_view(plan@) == before + Seq::new(i as nat, |k: int| (kind, names@[k]@)),
        decreases names@.len() - i,
    {
        let ghost so_far = plan_view(plan@);
        plan.push(IpcAction { kind, path: names[i].clone() });
        assert(plan_view(plan@) =~= so_far.push((kind, names@[i as int]@)));
        i += 1;
        assert(plan_view(plan@) =~= before + Seq::new(i as nat, |k: int| (kind, names@[k]@)));
    }
}

impl Lake {
    /// The number of ports.
    pub open spec fn num_ports(&self) -> nat {
        self.status_mem@.len()
    }

    /// The occupancy table: for each port the process id of the ship that lies
    /// in it, or zero.
    pub open spec fn table(&self) -> Seq<u32> {
        self.status_mem@
    }

    /// Every port has its four names, each derived from the port's number.
    pub open spec fn wf(&self) -> bool {
        &&& self.num_ports() <= i32::MAX
        &&& self.lake_ports@.len() == self.num_ports()
        &&& self.boarding_locks@.len() == self.num_ports()
        &&& self.boarding_pipes@.len() == self.num_ports()
        &&& self.confirmation_pipes@.len() == self.num_ports()
        &&& forall|p: int|
            0 <= p < self.num_ports() ==> (#[trigger] self.lake_ports@[p])@ == port_lock_name(
                p as nat,
            )
        &&& forall|p: int|
            0 <= p < self.num_ports() ==> (#[trigger] self.boarding_locks@[p])@
                == boarding_lock_name(p as nat)
        &&& forall|p: int|
            0 <= p < self.num_ports() ==> (#[trigger] self.boarding_pipes@[p])@
                == boarding_pipe_name(p as nat)
        &&& forall|p: int|
            0 <= p < self.num_ports() ==> (#[trigger] self.confirmation_pipes@[p])@
                == confirmation_pipe_name(p as nat)
    }

    /// The names are those of `other`; only the table may differ.
    pub open spec fn same_names(&self, other: &Lake) -> bool {
        &&& self.lake_ports == other.lake_ports
        &&& self.boarding_locks == other.boarding_locks
        &&& self.boarding_pipes == other.boarding_pipes
        &&& self.confirmation_pipes == other.confirmation_pipes
    }

    /// The number of ports that `config` asks for, if it names one.
    pub fn configured_ports(config: &Config) -> (r: Option<u32>)
        ensures
            match configured_ports(config.entries()) {
                Some(n) => r == Some(n as u32),
                None => r is None,
            },
    {
        match config.get(NUM_PORTS_PARAM) {
            Some(value) => {
                proof {
                    lemma_parse_unsigned_range(value@, i32::MAX as int);
                    lemma_parse_unsigned_range(value@, u32::MAX as int);
                }
                match parse_u32(value.as_str()) {
                    Some(n) if n <= 0x7fff_ffff => Some(n),
                    _ => None,
                }
            },
            None => None,
        }
    }

    /// The lake that `config` describes, with nobody in any port.
    pub fn new(config: &Config) -> (lake: Lake)
        requires
            configured_ports(config.entries()) is Some,
        ensures
            lake.wf(),
            lake.num_ports() == configured_ports(config.entries()).unwrap(),
            forall|p: int| 0 <= p < lake.num_ports() ==> lake.table()[p] == 0,
    {
        let num_ports = match Lake::configured_ports(config) {
            Some(n) => n,
            None => 0,
        };
        proof {
            lemma_parse_unsigned_range(
                lookup(config.entries(), NUM_PORTS_PARAM@).unwrap(),
                i32::MAX as int,
            );
        }
        let mut lake = Lake {
            lake_ports: Vec::new(),
            boarding_locks: Vec::new(),
            boarding_pipes: Vec::new(),
            confirmation_pipes: Vec::new(),
            status_mem: Vec::new(),
        };
        let mut port: u32 = 0;
        assert(lake.status_mem@ =~= Seq::new(0, |p: int| 0u32));
        while port < num_ports
            invariant
                0 <= port <= num_ports <= i32::MAX,
                lake.wf(),
                lake.num_ports() == port,
                lake.status_mem@ == Seq::new(port as nat, |p: int| 0u32),
            decreases num_ports - port,
        {
            lake.lake_ports.push(port_lock_path(port));
            lake.boarding_pipes.push(boarding_pipe_path(port));
            lake.boarding_locks.push(boarding_lock_path(port));
            lake.confirmation_pipes.push(confirmation_pipe_path(port));
            lake.status_mem.push(0);
            port += 1;
            assert(lake.status_mem@ =~= Seq::new(port as nat, |p: int| 0u32));
        }
        lake
    }

    /// The steps that make the lake's resources, for the first participant to
    /// carry out in this order, stopping at the first that fails.
    pub fn create_ipcs(&self) -> (plan: Vec<IpcAction>)
        requires
            self.wf(),
        ensures
            plan_view(plan@) == creation_plan(self.num_ports()),
    {
        let mut plan: Vec<IpcAction> = Vec::new();
        plan.push(IpcAction { kind: IpcKind::CreateLock, path: String::from_str(STATUS_FILE) });
        plan.push(
            IpcAction { kind: IpcKind::CreateSharedTable, path: String::from_str(STATUS_FILE) },
        );
        assert(plan_view(plan@) =~= seq![
            (IpcKind::CreateLock, STATUS_FILE@),
            (IpcKind::CreateSharedTable, STATUS_FILE@),
        ]);
        append_actions(&mut plan, IpcKind::CreateLock, &self.lake_ports);
        append_actions(&mut plan, IpcKind::CreateLock, &self.boarding_locks);
        append_actions(&mut plan, IpcKind::CreateFifo, &self.boarding_pipes);
        append_actions(&mut plan, IpcKind::CreateFifo, &self.confirmation_pipes);
        assert(plan_view(plan@) =~= creation_plan(self.num_ports()));
        plan
    }

    /// The steps by which a later participant reaches the lake's resources, to
    /// carry out in this order, stopping at the first that fails.
    pub fn attach_ipcs(&self) -> (plan: Vec<IpcAction>)
        requires
            self.wf(),
        ensures
            plan_view(plan@) == attach_plan(self.num_ports()),
    {
        let mut plan: Vec<IpcAction> = Vec::new();
        plan.push(IpcAction { kind: IpcKind::OpenLock, path: String::from_str(STATUS_FILE) });
        plan.push(
            IpcAction { kind: IpcKind::AttachSharedTable, path: String::from_str(STATUS_FILE) },
        );
        assert(plan_view(plan@) =~= seq![
            (IpcKind::OpenLock, STATUS_FILE@),
            (IpcKind::AttachSharedTable, STATUS_FILE@),
        ]);
        append_actions(&mut plan, IpcKind::OpenLock, &self.lake_ports);
        append_actions(&mut plan, IpcKind::Expect, &self.boarding_locks);
        append_actions(&mut plan, IpcKind::Expect, &self.boarding_pipes);
        append_actions(&mut plan, IpcKind::Expect, &self.confirmation_pipes);
        assert(plan_view(plan@) =~= attach_plan(self.num_ports()));
        plan
    }

    /// The steps that remove every resource of the lake, for the last
    /// participant to carry out in this order, stopping at the first that fails.
    pub fn destroy(&self) -> (plan: Vec<IpcAction>)
        requires
            self.wf(),
        ensures
            plan_view(plan@) == destruction_plan(self.num_ports()),
    {
        let mut plan: Vec<IpcAction> = Vec::new();
        plan.push(IpcAction { kind: IpcKind::RemoveSharedTable, path: String::from_str(STATUS_FILE) });
        assert(plan_view(plan@) =~= seq![(IpcKind::RemoveSharedTable, STATUS_FILE@)]);
        append_actions(&mut plan, IpcKind::Unlink, &self.lake_ports);
        append_actions(&mut plan, IpcKind::Unlink, &self.boarding_locks);
        append_actions(&mut plan, IpcKind::Unlink, &self.boarding_pipes);
        append_actions(&mut plan, IpcKind::Unlink, &self.confirmation_pipes);
        let ghost so_far = plan_view(plan@);
        plan.push(IpcAction { kind: IpcKind::Unlink, path: String::from_str(STATUS_FILE) });
        assert(plan_view(plan@) =~= so_far.push((IpcKind::Unlink, STATUS_FILE@)));
        assert(plan_view(plan@) =~= destruction_plan(self.num_ports()));
        plan
    }

    /// The port after `current_port`, going round the lake.
    pub fn get_next_port(&self, current_port: u32) -> (port: u32)
        requires
            self.wf(),
            self.num_ports() > 0,
            current_port < u32::MAX,
        ensures
            port == next_port(current_port as int, self.num_ports() as int),
            port < self.num_ports(),
    {
        let num_ports = self.lake_ports.len() as u32;
        (current_port + 1) % num_ports
    }

    /// The port that a draw picks: the draw's remainder by the number of ports.
    pub fn port_for_draw(&self, draw: u32) -> (port: u32)
        requires
            self.wf(),
            self.num_ports() > 0,
        ensures
            port == draw as int % self.num_ports() as int,
            port < self.num_ports(),
    {
        let num_ports = self.lake_ports.len() as u32;
        draw % num_ports
    }

    /// Some port of the lake, picked by chance.
    pub fn get_random_port(&self) -> (port: u32)
        requires
            self.wf(),
            self.num_ports() > 0,
        ensures
            port < self.num_ports(),
    {
        self.port_for_draw(random_u32())
    }

    /// The steps around `lock_port`, to be taken in this order; the ship is
    /// entered between the reading of the table and its writing.
    pub fn taking_steps(&self, port: u32) -> (steps: Vec<IoStep>)
        requires
            self.wf(),
            port < self.num_ports(),
        ensures
            steps_view(steps@) == taking_steps(port as nat),
    {
        let mut steps: Vec<IoStep> = Vec::new();
        steps.push(step(IoKind::Lock, self.lake_ports[port as usize].clone()));
        steps.push(step(IoKind::Lock, String::from_str(STATUS_FILE)));
        steps.push(step(IoKind::Load, String::from_str(STATUS_FILE)));
        steps.push(step(IoKind::Store, String::from_str(STATUS_FILE)));
        steps.push(step(IoKind::Unlock, String::from_str(STATUS_FILE)));
        assert(steps_view(steps@) =~= taking_steps(port as nat));
        steps
    }

    /// The steps around `unlock_port`, to be taken in this order; the ship is
    /// taken out between the reading of the table and its writing.
    pub fn leaving_steps(&self, port: u32) -> (steps: Vec<IoStep>)
        requires
            self.wf(),
            port < self.num_ports(),
        ensures
            steps_view(steps@) == leaving_steps(port as nat),
    {
        let mut steps: Vec<IoStep> = Vec::new();
        steps.push(step(IoKind::Lock, String::from_str(STATUS_FILE)));
        steps.push(step(IoKind::Load, String::from_str(STATUS_FILE)));
        steps.push(step(IoKind::Store, String::from_str(STATUS_FILE)));
        steps.push(step(IoKind::Unlock, String::from_str(STATUS_FILE)));
        steps.push(step(IoKind::Unlock, self.lake_ports[port as usize].clone()));
        assert(steps_view(steps@) =~= leaving_steps(port as nat));
        steps
    }

    /// The steps before `get_ship_at`, to be taken in this order.
    pub fn looking_steps(&self) -> (steps: Vec<IoStep>)
        ensures
            steps_view(steps@) == looking_steps(),
    {
        let mut steps: Vec<IoStep> = Vec::new();
        steps.push(step(IoKind::Lock, String::from_str(STATUS_FILE)));
        steps.push(step(IoKind::Load, String::from_str(STATUS_FILE)));
        steps.push(step(IoKind::Unlock, String::from_str(STATUS_FILE)));
        assert(steps_view(steps@) =~= looking_steps());
        steps
    }

    /// Records that the ship `pid` has taken `port`. The caller holds the
    /// port's occupancy lock and the table's lock. Zero is no ship: in the
    /// table it says that the port is empty.
    pub fn lock_port(&mut self, port: u32, pid: u32)
        requires
            port < old(self).num_ports(),
            pid != 0,
        ensures
            final(self).table() == published(old(self).table(), port as int, pid),
            final(self).same_names(old(self)),
            old(self).wf() ==> final(self).wf(),
    {
        self.status_mem.set(port as usize, pid);
    }

    /// Records that `port` has been left. The caller holds the table's lock,
    /// and gives up the port's occupancy lock afterwards.
    pub fn unlock_port(&mut self, port: u32)
        requires
            port < old(self).num_ports(),
        ensures
            final(self).table() == cleared(old(self).table(), port as int),
            final(self).same_names(old(self)),
            old(self).wf() ==> final(self).wf(),
    {
        self.status_mem.set(port as usize, 0);
    }

    /// The ship that lies in `port`, if one does.
    pub fn get_ship_at(&self, port: u32) -> (ship: Option<u32>)
        requires
            port < self.num_ports(),
        ensures
            ship == occupant(self.table()[port as int]),
    {
        let ship_pid = self.status_mem[port as usize];
        if ship_pid == 0 {
            None
        } else {
            Some(ship_pid)
        }
    }
}

/// Names the failure of a step, from the error number that the system gave.
pub fn failure_of(kind: IpcKind, errno: i32) -> (e: LakeError)
    ensures
        e == step_failure(kind, errno),
{
    let making = match kind {
        IpcKind::CreateLock => true,
        IpcKind::CreateFifo => true,
        IpcKind::CreateSharedTable => true,
        IpcKind::CreateSemaphore => true,
        _ => false,
    };
    classify(errno, making)
}

/// The steps that leave nothing behind of a plan that failed: `plan` was
/// carried out up to, and without, its step `failed_at`, and whatever those
/// steps made is taken back, the last made first.
pub fn rollback(plan: &Vec<IpcAction>, failed_at: usize) -> (steps: Vec<IpcAction>)
    requires
        failed_at <= plan@.len(),
    ensures
        plan_view(steps@) == undone(plan_view(plan@).subrange(0, failed_at as int)),
{
    let ghost done = plan_view(plan@).subrange(0, failed_at as int);
    let mut steps: Vec<IpcAction> = Vec::new();
    let mut i: usize = failed_at;
    assert(plan_view(steps@) + undone(done) =~= undone(done));
    assert(done.subrange(0, i as int) =~= done);
    while i > 0
        invariant
            0 <= i <= failed_at <= plan@.len(),
            done == plan_view(plan@).subrange(0, failed_at as int),
            undone(done) == plan_view(steps@) + undone(done.subrange(0, i as int)),
        decreases i,
    {
        let ghost prefix = done.subrange(0, i as int);
        let ghost so_far = plan_view(steps@);
        i -= 1;
        proof {
            assert(prefix.last() == (plan@[i as int].kind, plan@[i as int].path@));
            assert(prefix.drop_last() =~= done.subrange(0, i as int));
        }
        let removal = match plan[i].kind {
            IpcKind::CreateLock => Some(IpcKind::Unlink),
            IpcKind::CreateFifo => Some(IpcKind::Unlink),
            IpcKind::CreateSharedTable => Some(IpcKind::RemoveSharedTable),
            IpcKind::CreateSemaphore => Some(IpcKind::RemoveSemaphore),
            _ => None,
        };
        match removal {
            Some(kind) => {
                steps.push(IpcAction { kind, path: plan[i].path.clone() });
                proof {
                    let step = (kind, plan@[i as int].path@);
                    assert(plan_view(steps@) =~= so_far.push(step));
                    assert(so_far + (seq![step] + undone(done.subrange(0, i as int)))
                        =~= so_far.push(step) + undone(done.subrange(0, i as int)));
                }
            },
            None => {},
        }
    }
    assert(plan_view(steps@) + Seq::empty() =~= plan_view(steps@));
    steps
}

/// Nothing that was made is left behind: whatever a step of `done` has made,
/// the steps that undo `done` take back, under the same name.
pub proof fn lemma_undone_takes_back(done: Seq<(IpcKind, Seq<char>)>, i: int)
    requires
        0 <= i < done.len(),
        removal_of(done[i].0) is Some,
    ensures
        undone(done).contains((removal_of(done[i].0).unwrap(), done[i].1)),
    decreases done.len(),
{
    let earlier = done.drop_last();
    let step = (removal_of(done[i].0).unwrap(), done[i].1);
    if i == done.len() - 1 {
        assert(undone(done)[0] == step);
    } else {
        lemma_undone_takes_back(earlier, i);
        let k = choose|k: int| 0 <= k < undone(earlier).len() && undone(earlier)[k] == step;
        if removal_of(done.last().0) is Some {
            assert(undone(done)[k + 1] == step);
        } else {
            assert(undone(done)[k] == step);
        }
    }
}

/// The first participant makes every resource of the lake, and one that is
/// there already counts as a collision: the table's lock file, the occupancy table, and for each port its occupancy lock, its
/// boarding turnstile, its boarding channel and its confirmation channel.
pub proof fn lemma_creation_plan_is_complete(n: nat, port: nat)
    requires
        port < n,
    ensures
        creation_plan(n).contains((IpcKind::CreateLock, STATUS_FILE@)),
        creation_plan(n).contains((IpcKind::CreateSharedTable, STATUS_FILE@)),
        creation_plan(n).contains((IpcKind::CreateLock, port_lock_name(port))),
        creation_plan(n).contains((IpcKind::CreateLock, boarding_lock_name(port))),
        creation_plan(n).contains((IpcKind::CreateFifo, boarding_pipe_name(port))),
        creation_plan(n).contains((IpcKind::CreateFifo, confirmation_pipe_name(port))),
        creation_plan(n).len() == 2 + 4 * n,
        forall|i: int|
            0 <= i < creation_plan(n).len() ==> step_failure(#[trigger] creation_plan(n)[i].0, EEXIST)
                == LakeError::ResourceCollision,
{
    let plan = creation_plan(n);
    assert(plan[0] == (IpcKind::CreateLock, STATUS_FILE@));
    assert(plan[1] == (IpcKind::CreateSharedTable, STATUS_FILE@));
    assert(plan[(2 + port) as int] == (IpcKind::CreateLock, port_lock_name(port)));
    assert(plan[(2 + n + port) as int] == (IpcKind::CreateLock, boarding_lock_name(port)));
    assert(plan[(2 + 2 * n + port) as int] == (IpcKind::CreateFifo, boarding_pipe_name(port)));
    assert(plan[(2 + 3 * n + port) as int] == (IpcKind::CreateFifo, confirmation_pipe_name(port)));
}

/// A later participant looks for every resource of the lake, makes none, and
/// finds a missing one at the join, where it counts as missing: the table's lock file, the occupancy table, and
/// for each port its occupancy lock, its boarding turnstile, its boarding
/// channel and its confirmation channel.
pub proof fn lemma_attach_plan_is_complete(n: nat, port: nat)
    requires
        port < n,
    ensures
        attach_plan(n).contains((IpcKind::OpenLock, STATUS_FILE@)),
        attach_plan(n).contains((IpcKind::AttachSharedTable, STATUS_FILE@)),
        attach_plan(n).contains((IpcKind::OpenLock, port_lock_name(port))),
        attach_plan(n).contains((IpcKind::Expect, boarding_lock_name(port))),
        attach_plan(n).contains((IpcKind::Expect, boarding_pipe_name(port))),
        attach_plan(n).contains((IpcKind::Expect, confirmation_pipe_name(port))),
        attach_plan(n).len() == 2 + 4 * n,
        forall|i: int|
            0 <= i < attach_plan(n).len() ==> removal_of(#[trigger] attach_plan(n)[i].0) is None,
        forall|i: int|
            0 <= i < attach_plan(n).len() ==> step_failure(#[trigger] attach_plan(n)[i].0, ENOENT)
                == LakeError::ResourceMissing,
{
    let plan = attach_plan(n);
    assert(plan[0] == (IpcKind::OpenLock, STATUS_FILE@));
    assert(plan[1] == (IpcKind::AttachSharedTable, STATUS_FILE@));
    assert(plan[(2 + port) as int] == (IpcKind::OpenLock, port_lock_name(port)));
    assert(plan[(2 + n + port) as int] == (IpcKind::Expect, boarding_lock_name(port)));
    assert(plan[(2 + 2 * n + port) as int] == (IpcKind::Expect, boarding_pipe_name(port)));
    assert(plan[(2 + 3 * n + port) as int] == (IpcKind::Expect, confirmation_pipe_name(port)));
}

/// The last participant removes every resource of the lake: the occupancy
/// table, the table's lock file, and for each port its occupancy lock, its
/// boarding turnstile, its boarding channel and its confirmation channel.
pub proof fn lemma_destruction_plan_is_complete(n: nat, port: nat)
    requires
        port < n,
    ensures
        destruction_plan(n).contains((IpcKind::RemoveSharedTable, STATUS_FILE@)),
        destruction_plan(n).contains((IpcKind::Unlink, STATUS_FILE@)),
        destruction_plan(n).contains((IpcKind::Unlink, port_lock_name(port))),
        destruction_plan(n).contains((IpcKind::Unlink, boarding_lock_name(port))),
        destruction_plan(n).contains((IpcKind::Unlink, boarding_pipe_name(port))),
        destruction_plan(n).contains((IpcKind::Unlink, confirmation_pipe_name(port))),
        destruction_plan(n).len() == 2 + 4 * n,
{
    let plan = destruction_plan(n);
    assert(plan[0] == (IpcKind::RemoveSharedTable, STATUS_FILE@));
    assert(plan[(1 + 4 * n) as int] == (IpcKind::Unlink, STATUS_FILE@));
    assert(plan[(1 + port) as int] == (IpcKind::Unlink, port_lock_name(port)));
    assert(plan[(1 + n + port) as int] == (IpcKind::Unlink, boarding_lock_name(port)));
    assert(plan[(1 + 2 * n + port) as int] == (IpcKind::Unlink, boarding_pipe_name(port)));
    assert(plan[(1 + 3 * n + port) as int] == (IpcKind::Unlink, confirmation_pipe_name(port)));
}

/// The lifecycle record outlives the lake: no step of making, attaching to or
/// removing the lake's resources is a step on the record's file.
pub proof fn lemma_record_file_is_left_alone(n: nat, i: int)
    ensures
        0 <= i < creation_plan(n).len() ==> creation_plan(n)[i].1 != MAIN_LOCK_FILENAME@,
        0 <= i < attach_plan(n).len() ==> attach_plan(n)[i].1 != MAIN_LOCK_FILENAME@,
        0 <= i < destruction_plan(n).len() ==> destruction_plan(n)[i].1 != MAIN_LOCK_FILENAME@,
{
    reveal_strlit("tp1.lock");
    reveal_strlit("status.lock");
    reveal_strlit("port-");
    assert(MAIN_LOCK_FILENAME@[0] == 't');
    assert(STATUS_FILE@[0] == 's');
    assert forall|p: nat, suffix: Seq<char>| (#[trigger] numbered("port-"@, p, suffix))[0]
        == 'p' by {
        assert("port-"@[0] == 'p');
    }
    if 0 <= i < creation_plan(n).len() {
        let path = creation_plan(n)[i].1;
        assert(path[0] == 's' || path[0] == 'p');
    }
    if 0 <= i < attach_plan(n).len() {
        let path = attach_plan(n)[i].1;
        assert(path[0] == 's' || path[0] == 'p');
    }
    if 0 <= i < destruction_plan(n).len() {
        let path = destruction_plan(n)[i].1;
        assert(path[0] == 's' || path[0] == 'p');
    }
}

/// A ship that has taken a port is the one found there, and a port that was
/// left is found empty; no other port is touched by either.
pub proof fn lemma_occupancy_round_trip(table: Seq<u32>, port: int, pid: u32)
    requires
        0 <= port < table.len(),
        pid != 0,
    ensures
        occupant(published(table, port, pid)[port]) == Some(pid),
        occupant(cleared(published(table, port, pid), port)[port]) is None,
        forall|other: int|
            0 <= other < table.len() && other != port ==> published(table, port, pid)[other]
                == table[other] && cleared(table, port)[other] == table[other],
{
}

} // verus!
