//! Joining and leaving the lake.
//!
//! Participants come and go as they please and none is in charge. The first to
//! come makes the resources and the last to go removes them; who is first and
//! who is last is read off the lifecycle record, which every participant
//! changes under one lock.

use crate::error::LakeError;
use crate::handlers::signal_handler::QuitHandler;
use crate::live_objects::lake::{
    attach_plan, configured_ports, creation_plan, destruction_plan, IpcAction, IpcKind, Lake,
    plan_view, signed_port,
};
use crate::live_objects::main_lock::{decremented, MainLockInfo};
use crate::misc::config::{Config, config_entries};
use crate::names::MAIN_LOCK_FILENAME;
use crate::signal::SignalHandler;
use vstd::prelude::*;
use vstd::string::*;

verus! {

/// A participant's hold on the lake.
pub struct LiveObjectRunner {
    /// Notes the request to stop.
    pub quit_handler: QuitHandler,
    pub lake: Lake,
}

/// Whether the participant that joins a lake of `count` participants is the
/// one that makes the resources.
pub open spec fn creates(count: int) -> bool {
    count == 0
}

/// Whether the participant that leaves a lake of `count` participants is the
/// one that removes the resources: the last one is.
pub open spec fn destroys(count: int) -> bool {
    count == 1
}

/// The steps of a participant that joins a lake of `count` participants and
/// `n` ports, in their order: it makes the resources where it is the first,
/// and attaches to them where it is not; only then does it write the record,
/// which now counts it, and give up the record's lock. Where a step fails the
/// later ones are not taken: the record is not written, and its lock is kept
/// until the process ends.
pub open spec fn join_plan(count: int, n: nat) -> Seq<(IpcKind, Seq<char>)> {
    (if creates(count) {
        creation_plan(n)
    } else {
        attach_plan(n)
    }) + seq![
        (IpcKind::SaveRecord, MAIN_LOCK_FILENAME@),
        (IpcKind::ReleaseRecord, MAIN_LOCK_FILENAME@),
    ]
}

/// The steps of a participant that leaves a lake of `count` participants and
/// `n` ports, in their order: it writes the record, which counts it no more;
/// then it removes the resources where it is the last; and then it gives up
/// the record's lock.
pub open spec fn leave_plan(count: int, n: nat) -> Seq<(IpcKind, Seq<char>)> {
    seq![(IpcKind::SaveRecord, MAIN_LOCK_FILENAME@)] + (if destroys(count) {
        destruction_plan(n)
    } else {
        Seq::empty()
    }) + seq![(IpcKind::ReleaseRecord, MAIN_LOCK_FILENAME@)]
}

/// How an attempt to join ends, before anything is changed: with the number of
/// ports of the lake, or with the reason for which the participant is turned
/// away. A configuration that is not strictly older than the record is stale,
/// whatever it holds; one that cannot be read, or names no number of ports, is
/// malformed.
pub open spec fn admission(record_timestamp: u64, config: Seq<char>, config_timestamp: u64)
    -> Result<int, LakeError> {
    if config_timestamp >= record_timestamp {
        Err(LakeError::StaleConfiguration)
    } else {
        match config_entries(config) {
            None => Err(LakeError::ProtocolViolation),
            Some(entries) => match configured_ports(entries) {
                None => Err(LakeError::ProtocolViolation),
                Some(n) => Ok(n),
            },
        }
    }
}

impl LiveObjectRunner {
    /// Joins the lake. The caller holds the lock of the lifecycle record,
    /// `lock_info` is the record as read under that lock, and `config` and
    /// `config_timestamp` are the contents of the configuration and the time
    /// at which it was last written.
    ///
    /// A participant that is turned away leaves the record as it was. One that
    /// is let in is counted, and gets the steps to take, in their order.
    pub fn new(
        quit_handler: QuitHandler,
        lock_info: &mut MainLockInfo,
        config: &str,
        config_timestamp: u64,
    ) -> (r: Result<(LiveObjectRunner, Vec<IpcAction>), LakeError>)
        requires
            admission(old(lock_info).timestamp, config@, config_timestamp) is Ok ==> old(
                lock_info,
            ).counter() < u32::MAX,
        ensures
            match admission(old(lock_info).timestamp, config@, config_timestamp) {
                Err(e) => r == Err::<(LiveObjectRunner, Vec<IpcAction>), LakeError>(e)
                    && *final(lock_info) == *old(lock_info),
                Ok(n) => {
                    &&& r is Ok
                    &&& r.unwrap().0.quit_handler == quit_handler
                    &&& r.unwrap().0.lake.wf()
                    &&& r.unwrap().0.lake.num_ports() == n
                    &&& forall|p: int| 0 <= p < n ==> r.unwrap().0.lake.table()[p] == 0
                    &&& plan_view(r.unwrap().1@) == join_plan(old(lock_info).counter(), n as nat)
                    &&& final(lock_info).counter() == old(lock_info).counter() + 1
                    &&& final(lock_info).timestamp == old(lock_info).timestamp
                },
            },
    {
        let lake_config = match Config::new(config, config_timestamp, lock_info) {
            Ok(lake_config) => lake_config,
            Err(e) => {
                return Err(e);
            },
        };
        if Lake::configured_ports(&lake_config).is_none() {
            return Err(LakeError::ProtocolViolation);
        }
        let lake = Lake::new(&lake_config);
        let mut plan = if lock_info.is_counter_zero() {
            lake.create_ipcs()
        } else {
            lake.attach_ipcs()
        };
        let ghost reached = plan_view(plan@);
        plan.push(
            IpcAction { kind: IpcKind::SaveRecord, path: String::from_str(MAIN_LOCK_FILENAME) },
        );
        plan.push(
            IpcAction { kind: IpcKind::ReleaseRecord, path: String::from_str(MAIN_LOCK_FILENAME) },
        );
        assert(plan_view(plan@) =~= reached + seq![
            (IpcKind::SaveRecord, MAIN_LOCK_FILENAME@),
            (IpcKind::ReleaseRecord, MAIN_LOCK_FILENAME@),
        ]);
        lock_info.counter_inc();
        Ok((LiveObjectRunner { quit_handler, lake }, plan))
    }

    /// Whether the participant goes on: until a request to stop has come.
    pub fn keeps_running(&self) -> (goes_on: bool)
        ensures
            goes_on == !self.quit_handler.noted(),
    {
        !self.quit_handler.has_graceful_quit()
    }

    /// Leaves the lake. The caller holds the lock of the lifecycle record, and
    /// `lock_info` is the record as read under that lock.
    ///
    /// The participant is counted out and gets the steps to take, in their
    /// order. The count never falls below zero: on a record that counts nobody
    /// a leave changes nothing and removes nothing.
    pub fn exit(&self, lock_info: &mut MainLockInfo) -> (plan: Vec<IpcAction>)
        requires
            self.lake.wf(),
        ensures
            final(lock_info).counter() == decremented(old(lock_info).counter()),
            final(lock_info).timestamp == old(lock_info).timestamp,
            plan_view(plan@) == leave_plan(old(lock_info).counter(), self.lake.num_ports()),
    {
        let last = lock_info.process_counter == 1;
        lock_info.counter_dec();
        let mut plan: Vec<IpcAction> = Vec::new();
        plan.push(
            IpcAction { kind: IpcKind::SaveRecord, path: String::from_str(MAIN_LOCK_FILENAME) },
        );
        assert(plan_view(plan@) =~= seq![(IpcKind::SaveRecord, MAIN_LOCK_FILENAME@)]);
        if last {
            let mut removal = self.lake.destroy();
            let ghost removed = plan_view(removal@);
            let ghost before = plan_view(plan@);
            plan.append(&mut removal);
            assert(plan_view(plan@) =~= before + removed);
        }
        let ghost so_far = plan_view(plan@);
        plan.push(
            IpcAction { kind: IpcKind::ReleaseRecord, path: String::from_str(MAIN_LOCK_FILENAME) },
        );
        assert(plan_view(plan@) =~= so_far.push((IpcKind::ReleaseRecord, MAIN_LOCK_FILENAME@)));
        assert(plan_view(plan@) =~= leave_plan(
            old(lock_info).counter(),
            self.lake.num_ports(),
        ));
        plan
    }

    /// Some port of the lake, picked by chance.
    pub fn get_random_port(&self) -> (port: i32)
        requires
            self.lake.wf(),
            self.lake.num_ports() > 0,
        ensures
            0 <= port < self.lake.num_ports(),
    {
        signed_port(self.lake.get_random_port())
    }
}

/// The lake as the lifecycle record sees it: how many participants are
/// counted, and whether the resources are there.
pub struct Shore {
    pub count: int,
    pub resources: bool,
}

/// The lake after one more participant has joined: it makes the resources
/// where `creates` says so.
pub open spec fn joined(shore: Shore) -> Shore {
    Shore { count: shore.count + 1, resources: shore.resources || creates(shore.count) }
}

/// The lake after one participant has left: it removes the resources where
/// `destroys` says so, and the count never falls below zero.
pub open spec fn left(shore: Shore) -> Shore {
    Shore { count: decremented(shore.count), resources: shore.resources && !destroys(shore.count) }
}

/// The lake after a run of joins (`true`) and leaves (`false`).
pub open spec fn after(shore: Shore, events: Seq<bool>) -> Shore
    decreases events.len(),
{
    if events.len() == 0 {
        shore
    } else if events.last() {
        joined(after(shore, events.drop_last()))
    } else {
        left(after(shore, events.drop_last()))
    }
}

/// The joins of a run less its leaves.
pub open spec fn balance(events: Seq<bool>) -> int
    decreases events.len(),
{
    if events.len() == 0 {
        0
    } else if events.last() {
        balance(events.drop_last()) + 1
    } else {
        balance(events.drop_last()) - 1
    }
}

/// Nobody leaves who has not joined: at no point of the run are there more
/// leaves than joins.
pub open spec fn orderly(events: Seq<bool>) -> bool {
    forall|k: int| 0 <= k <= events.len() ==> #[trigger] balance(events.subrange(0, k)) >= 0
}

/// The lake that nobody has joined yet: it counts nobody and has no resources.
pub open spec fn untouched() -> Shore {
    Shore { count: 0, resources: false }
}

/// Reference-counted teardown. Start from a lake that nobody has joined, and
/// let joins and leaves follow in any order whatever. Then at every point the
/// count is not negative and the resources are there exactly while somebody
/// is counted: they are there after a join, they are never removed while
/// somebody is counted, and whoever joins makes them exactly where they are
/// not there.
pub proof fn lemma_reference_counted_teardown(events: Seq<bool>)
    ensures
        after(untouched(), events).count >= 0,
        after(untouched(), events).resources <==> after(untouched(), events).count > 0,
        events.len() > 0 && events.last() ==> after(untouched(), events).resources,
        creates(after(untouched(), events).count) <==> !after(untouched(), events).resources,
    decreases events.len(),
{
    if events.len() > 0 {
        lemma_reference_counted_teardown(events.drop_last());
    }
}

/// Where nobody leaves before it has joined, the count is the joins less the
/// leaves. So after as many leaves as joins nobody is counted and the
/// resources are gone, and whoever leaves finds them there.
pub proof fn lemma_orderly_participants(events: Seq<bool>)
    requires
        orderly(events),
    ensures
        after(untouched(), events).count == balance(events),
        balance(events) == 0 ==> !after(untouched(), events).resources,
        events.len() > 0 && !events.last() ==> after(untouched(), events.drop_last()).resources,
    decreases events.len(),
{
    lemma_reference_counted_teardown(events);
    if events.len() > 0 {
        let earlier = events.drop_last();
        assert(orderly(earlier)) by {
            assert forall|k: int| 0 <= k <= earlier.len() implies #[trigger] balance(
                earlier.subrange(0, k),
            ) >= 0 by {
                assert(earlier.subrange(0, k) =~= events.subrange(0, k));
            }
        }
        lemma_orderly_participants(earlier);
        lemma_reference_counted_teardown(earlier);
        assert(events.subrange(0, events.len() as int) =~= events);
        assert(balance(events) >= 0);
    }
}

} // verus!
