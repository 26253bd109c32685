use conculake::error::LakeError;
use conculake::handlers::signal_handler::QuitHandler;
use conculake::live_objects::exchange::{IoKind, IoStep};
use conculake::live_objects::lake::{
    failure_of, rollback, signed_port, IpcAction, IpcKind, Lake, FIFO_MODE,
};
use conculake::live_objects::live_object::LiveObjectRunner;
use conculake::live_objects::main_lock::MainLockInfo;
use conculake::misc::config::Config;
use conculake::names::{
    boarding_lock_path, boarding_pipe_path, confirmation_pipe_path, passenger_lock_path,
    passenger_pipe_path, port_lock_path, MAIN_CONFIG_FILENAME, MAIN_LOCK_FILENAME,
    NUM_PORTS_PARAM, STATUS_FILE,
};
use conculake::signal::SignalHandler;

fn lake_of(ports: u32) -> Lake {
    let lock = MainLockInfo { process_counter: 0, timestamp: 10 };
    let config = Config::new(&format!("lake ports={}\n", ports), 1, &lock).unwrap();
    assert_eq!(Lake::configured_ports(&config), Some(ports));
    Lake::new(&config)
}

fn listed(plan: &Vec<IpcAction>) -> Vec<(IpcKind, String)> {
    plan.iter().map(|action| (action.kind, action.path.clone())).collect()
}

/// The steps of a plan on the lake's resources, without those on the record.
fn on_resources(plan: &Vec<IpcAction>) -> Vec<(IpcKind, String)> {
    let on_record = [IpcKind::SaveRecord, IpcKind::ReleaseRecord];
    listed(plan).into_iter().filter(|step| !on_record.contains(&step.0)).collect()
}

#[test]
fn names_are_derived_from_numbers() {
    assert_eq!(port_lock_path(0), "port-0.lock");
    assert_eq!(port_lock_path(12), "port-12.lock");
    assert_eq!(boarding_pipe_path(3), "port-3-board.fifo");
    assert_eq!(boarding_lock_path(3), "port-3-board.fifo.lock");
    assert_eq!(confirmation_pipe_path(3), "port-3-confirm.fifo");
    assert_eq!(passenger_pipe_path(4711), "passenger-4711.fifo");
    assert_eq!(passenger_lock_path(4711), "passenger-4711.fifo.lock");
    assert_eq!(port_lock_path(u32::MAX), "port-4294967295.lock");
}

#[test]
fn fixed_names() {
    assert_eq!(STATUS_FILE, "status.lock");
    assert_eq!(MAIN_LOCK_FILENAME, "tp1.lock");
    assert_eq!(MAIN_CONFIG_FILENAME, "config.cfg");
    assert_eq!(NUM_PORTS_PARAM, "lake ports");
    assert_eq!(FIFO_MODE, 0o644);
}

#[test]
fn different_numbers_give_different_names() {
    let mut seen = std::collections::HashSet::new();
    for port in 0..200 {
        assert!(seen.insert(port_lock_path(port)));
        assert!(seen.insert(boarding_pipe_path(port)));
        assert!(seen.insert(boarding_lock_path(port)));
        assert!(seen.insert(confirmation_pipe_path(port)));
        assert!(seen.insert(passenger_pipe_path(port)));
        assert!(seen.insert(passenger_lock_path(port)));
    }
}

#[test]
fn configured_ports_needs_a_number() {
    let lock = MainLockInfo { process_counter: 0, timestamp: 10 };
    let config = Config::new("lake ports=many\n", 1, &lock).unwrap();
    assert_eq!(Lake::configured_ports(&config), None);
    let config = Config::new("ports=3\n", 1, &lock).unwrap();
    assert_eq!(Lake::configured_ports(&config), None);
    let config = Config::new("lake ports=3\nlake ports=5\n", 1, &lock).unwrap();
    assert_eq!(Lake::configured_ports(&config), Some(5));
    let config = Config::new("lake ports=-3\n", 1, &lock).unwrap();
    assert_eq!(Lake::configured_ports(&config), None);
}

#[test]
fn new_lake_names_every_port_and_is_empty() {
    let lake = lake_of(3);
    assert_eq!(lake.lake_ports, vec!["port-0.lock", "port-1.lock", "port-2.lock"]);
    assert_eq!(
        lake.boarding_pipes,
        vec!["port-0-board.fifo", "port-1-board.fifo", "port-2-board.fifo"]
    );
    assert_eq!(
        lake.boarding_locks,
        vec!["port-0-board.fifo.lock", "port-1-board.fifo.lock", "port-2-board.fifo.lock"]
    );
    assert_eq!(
        lake.confirmation_pipes,
        vec!["port-0-confirm.fifo", "port-1-confirm.fifo", "port-2-confirm.fifo"]
    );
    assert_eq!(lake.status_mem, vec![0, 0, 0]);
}

#[test]
fn lake_without_ports() {
    let lake = lake_of(0);
    assert!(lake.lake_ports.is_empty());
    assert!(lake.status_mem.is_empty());
    assert_eq!(listed(&lake.create_ipcs()).len(), 2);
    assert_eq!(listed(&lake.attach_ipcs()).len(), 2);
    assert_eq!(listed(&lake.destroy()).len(), 2);
}

#[test]
fn next_port_goes_round() {
    let lake = lake_of(3);
    assert_eq!(lake.get_next_port(0), 1);
    assert_eq!(lake.get_next_port(1), 2);
    assert_eq!(lake.get_next_port(2), 0);
    assert_eq!(lake.get_next_port(7), 2);
    assert_eq!(lake_of(1).get_next_port(0), 0);
}

#[test]
fn port_for_draw_is_the_remainder() {
    let lake = lake_of(3);
    assert_eq!(lake.port_for_draw(0), 0);
    assert_eq!(lake.port_for_draw(7), 1);
    assert_eq!(lake.port_for_draw(u32::MAX), 0);
    assert_eq!(lake_of(7).port_for_draw(u32::MAX), 3);
}

#[test]
fn random_port_is_a_port_of_the_lake() {
    let lake = lake_of(3);
    let mut seen = [false; 3];
    for _ in 0..500 {
        let port = lake.get_random_port();
        assert!(port < 3);
        seen[port as usize] = true;
    }
    // five hundred draws that all miss one port of three do not happen
    assert_eq!(seen, [true, true, true]);
}

#[test]
fn occupant_is_who_locked_the_port() {
    let mut lake = lake_of(3);
    assert_eq!(lake.get_ship_at(1), None);
    lake.lock_port(1, 4242);
    assert_eq!(lake.get_ship_at(1), Some(4242));
    assert_eq!(lake.get_ship_at(0), None);
    assert_eq!(lake.get_ship_at(2), None);
    assert_eq!(lake.status_mem, vec![0, 4242, 0]);
    lake.unlock_port(1);
    assert_eq!(lake.get_ship_at(1), None);
    assert_eq!(lake.status_mem, vec![0, 0, 0]);
}

#[test]
fn locking_a_port_leaves_the_others() {
    let mut lake = lake_of(3);
    lake.lock_port(0, 10);
    lake.lock_port(2, 30);
    lake.unlock_port(0);
    assert_eq!(lake.get_ship_at(0), None);
    assert_eq!(lake.get_ship_at(2), Some(30));
    assert_eq!(lake.lake_ports, vec!["port-0.lock", "port-1.lock", "port-2.lock"]);
}

#[test]
fn creation_plan_in_order() {
    let plan = listed(&lake_of(2).create_ipcs());
    let expected: Vec<(IpcKind, String)> = vec![
        (IpcKind::CreateLock, "status.lock".into()),
        (IpcKind::CreateSharedTable, "status.lock".into()),
        (IpcKind::CreateLock, "port-0.lock".into()),
        (IpcKind::CreateLock, "port-1.lock".into()),
        (IpcKind::CreateLock, "port-0-board.fifo.lock".into()),
        (IpcKind::CreateLock, "port-1-board.fifo.lock".into()),
        (IpcKind::CreateFifo, "port-0-board.fifo".into()),
        (IpcKind::CreateFifo, "port-1-board.fifo".into()),
        (IpcKind::CreateFifo, "port-0-confirm.fifo".into()),
        (IpcKind::CreateFifo, "port-1-confirm.fifo".into()),
    ];
    assert_eq!(plan, expected);
}

#[test]
fn destruction_plan_in_order() {
    let plan = listed(&lake_of(2).destroy());
    let expected: Vec<(IpcKind, String)> = vec![
        (IpcKind::RemoveSharedTable, "status.lock".into()),
        (IpcKind::Unlink, "port-0.lock".into()),
        (IpcKind::Unlink, "port-1.lock".into()),
        (IpcKind::Unlink, "port-0-board.fifo.lock".into()),
        (IpcKind::Unlink, "port-1-board.fifo.lock".into()),
        (IpcKind::Unlink, "port-0-board.fifo".into()),
        (IpcKind::Unlink, "port-1-board.fifo".into()),
        (IpcKind::Unlink, "port-0-confirm.fifo".into()),
        (IpcKind::Unlink, "port-1-confirm.fifo".into()),
        (IpcKind::Unlink, "status.lock".into()),
    ];
    assert_eq!(plan, expected);
}

#[test]
fn attach_plan_in_order() {
    let plan = listed(&lake_of(2).attach_ipcs());
    let expected: Vec<(IpcKind, String)> = vec![
        (IpcKind::OpenLock, "status.lock".into()),
        (IpcKind::AttachSharedTable, "status.lock".into()),
        (IpcKind::OpenLock, "port-0.lock".into()),
        (IpcKind::OpenLock, "port-1.lock".into()),
        (IpcKind::Expect, "port-0-board.fifo.lock".into()),
        (IpcKind::Expect, "port-1-board.fifo.lock".into()),
        (IpcKind::Expect, "port-0-board.fifo".into()),
        (IpcKind::Expect, "port-1-board.fifo".into()),
        (IpcKind::Expect, "port-0-confirm.fifo".into()),
        (IpcKind::Expect, "port-1-confirm.fifo".into()),
    ];
    assert_eq!(plan, expected);
}

#[test]
fn signed_port_is_the_same_number() {
    assert_eq!(signed_port(0), 0);
    assert_eq!(signed_port(5), 5);
    assert_eq!(signed_port(0x7fff_ffff), i32::MAX);
}

#[test]
fn no_port_is_taken_for_a_sentinel() {
    let lock = MainLockInfo { process_counter: 0, timestamp: 10 };
    let config = Config::new("lake ports=2147483647\n", 1, &lock).unwrap();
    assert_eq!(Lake::configured_ports(&config), Some(0x7fff_ffff));
    for text in ["lake ports=2147483648\n", "lake ports=4294967295\n"] {
        let config = Config::new(text, 1, &lock).unwrap();
        assert_eq!(Lake::configured_ports(&config), None);
        let mut record = MainLockInfo::create(100);
        let joined = LiveObjectRunner::new(QuitHandler::new(), &mut record, text, 1);
        assert!(matches!(joined, Err(LakeError::ProtocolViolation)));
    }
}

#[test]
fn first_to_join_creates() {
    let mut record = MainLockInfo::create(100);
    let (runner, plan) =
        LiveObjectRunner::new(QuitHandler::new(), &mut record, "lake ports=2\n", 50).ok().unwrap();
    assert_eq!(record.process_counter, 1);
    assert_eq!(record.timestamp, 100);
    assert_eq!(on_resources(&plan), listed(&lake_of(2).create_ipcs()));
    assert_eq!(plan.len(), 12);
    // the record is written, and its lock given up, when all is made
    assert_eq!(listed(&plan)[10], (IpcKind::SaveRecord, "tp1.lock".to_string()));
    assert_eq!(listed(&plan)[11], (IpcKind::ReleaseRecord, "tp1.lock".to_string()));
    assert_eq!(runner.lake.status_mem, vec![0, 0]);
    assert!(runner.keeps_running());
}

#[test]
fn later_joiners_attach() {
    let mut record = MainLockInfo { process_counter: 1, timestamp: 100 };
    let (runner, plan) =
        LiveObjectRunner::new(QuitHandler::new(), &mut record, "lake ports=2\n", 50).ok().unwrap();
    assert_eq!(record.process_counter, 2);
    assert_eq!(on_resources(&plan), listed(&lake_of(2).attach_ipcs()));
    assert_eq!(plan.len(), 12);
    assert_eq!(listed(&plan)[10], (IpcKind::SaveRecord, "tp1.lock".to_string()));
    assert_eq!(listed(&plan)[11], (IpcKind::ReleaseRecord, "tp1.lock".to_string()));
    assert_eq!(runner.lake.lake_ports.len(), 2);
}

#[test]
fn stale_configuration_is_turned_away() {
    for count in [0, 1, 5] {
        let mut record = MainLockInfo { process_counter: count, timestamp: 100 };
        for _ in 0..3 {
            for stamp in [100, 101, u64::MAX] {
                let joined =
                    LiveObjectRunner::new(QuitHandler::new(), &mut record, "lake ports=2\n", stamp);
                assert!(matches!(joined, Err(LakeError::StaleConfiguration)));
                assert_eq!(record.process_counter, count);
                assert_eq!(record.timestamp, 100);
            }
        }
    }
}

#[test]
fn unreadable_configuration_is_turned_away() {
    let mut record = MainLockInfo { process_counter: 4, timestamp: 100 };
    for text in ["", "ports=3\n", "lake ports=three\n", "lake ports\n", "lake ports=3\nrubbish\n"] {
        let joined = LiveObjectRunner::new(QuitHandler::new(), &mut record, text, 1);
        assert!(matches!(joined, Err(LakeError::ProtocolViolation)), "{:?}", text);
        assert_eq!(record.process_counter, 4);
    }
}

#[test]
fn last_to_leave_destroys() {
    let mut record = MainLockInfo::create(100);
    let mut runners = Vec::new();
    for n in 0..4 {
        let (runner, plan) =
            LiveObjectRunner::new(QuitHandler::new(), &mut record, "lake ports=2\n", 50)
                .ok()
                .unwrap();
        assert_eq!(plan[1].kind == IpcKind::AttachSharedTable, n > 0);
        assert_eq!(plan[1].kind == IpcKind::CreateSharedTable, n == 0);
        runners.push(runner);
    }
    assert_eq!(record.process_counter, 4);
    for n in 0..4 {
        let plan = runners[n].exit(&mut record);
        // the record is written first, and its lock given up last
        assert_eq!(listed(&plan)[0], (IpcKind::SaveRecord, "tp1.lock".to_string()));
        assert_eq!(
            listed(&plan)[plan.len() - 1],
            (IpcKind::ReleaseRecord, "tp1.lock".to_string())
        );
        if n < 3 {
            assert!(on_resources(&plan).is_empty());
            assert_eq!(plan.len(), 2);
            assert!(!record.is_counter_zero());
        } else {
            assert_eq!(on_resources(&plan), listed(&lake_of(2).destroy()));
            assert_eq!(plan.len(), 12);
            assert!(record.is_counter_zero());
        }
    }
}

#[test]
fn joins_and_leaves_in_any_order() {
    // true joins, false leaves; nobody leaves before it has joined
    let runs: [&[bool]; 4] = [
        &[true, false],
        &[true, true, false, false],
        &[true, false, true, false, true, true, false, false],
        &[true, true, false, true, false, false],
    ];
    for run in runs {
        let mut record = MainLockInfo::create(100);
        let mut exist = false;
        let mut runners = Vec::new();
        for &join in run {
            if join {
                let (runner, plan) =
                    LiveObjectRunner::new(QuitHandler::new(), &mut record, "lake ports=1\n", 5)
                        .ok()
                        .unwrap();
                // made exactly where they are not there
                let makes = plan.iter().any(|action| action.kind == IpcKind::CreateSharedTable);
                assert_eq!(makes, !exist);
                assert_eq!(makes, plan.iter().all(|action| action.kind != IpcKind::OpenLock));
                exist = true;
                runners.push(runner);
            } else {
                let runner = runners.pop().unwrap();
                assert!(exist);
                if !on_resources(&runner.exit(&mut record)).is_empty() {
                    exist = false;
                }
            }
            assert_eq!(exist, record.process_counter > 0);
        }
        assert!(!exist);
        assert!(record.is_counter_zero());
    }
}

#[test]
fn runner_stops_on_request() {
    let mut record = MainLockInfo::create(100);
    let (mut runner, _) =
        LiveObjectRunner::new(QuitHandler::new(), &mut record, "lake ports=2\n", 50).ok().unwrap();
    assert!(runner.keeps_running());
    runner.quit_handler.handle();
    assert!(!runner.keeps_running());
    for _ in 0..50 {
        let port = runner.get_random_port();
        assert!(0 <= port && port < 2);
    }
}

#[test]
fn attach_looks_for_what_creation_makes() {
    let lake = lake_of(3);
    let made: Vec<String> = listed(&lake.create_ipcs()).into_iter().map(|step| step.1).collect();
    let sought: Vec<String> = listed(&lake.attach_ipcs()).into_iter().map(|step| step.1).collect();
    assert_eq!(made, sought);
    for step in lake.attach_ipcs() {
        assert!(matches!(
            step.kind,
            IpcKind::OpenLock | IpcKind::AttachSharedTable | IpcKind::Expect
        ));
    }
}

#[test]
fn leave_without_join_changes_nothing() {
    let mut record = MainLockInfo::create(100);
    let (runner, _) =
        LiveObjectRunner::new(QuitHandler::new(), &mut record, "lake ports=2\n", 50).ok().unwrap();
    assert_eq!(record.process_counter, 1);
    assert_eq!(on_resources(&runner.exit(&mut record)).len(), 10);
    assert_eq!(record.process_counter, 0);
    // nobody is counted: another leave removes nothing and counts nothing
    for _ in 0..3 {
        assert!(on_resources(&runner.exit(&mut record)).is_empty());
        assert_eq!(record.process_counter, 0);
        assert_eq!(record.timestamp, 100);
        assert_eq!(record.save(), "0\n100\n");
    }
    // the next to join is the first again
    let (_, plan) =
        LiveObjectRunner::new(QuitHandler::new(), &mut record, "lake ports=2\n", 50).ok().unwrap();
    assert_eq!(plan[0].kind, IpcKind::CreateLock);
    assert_eq!(record.process_counter, 1);
}

#[test]
fn only_the_last_to_leave_destroys() {
    let runner_of = |record: &mut MainLockInfo| {
        LiveObjectRunner::new(QuitHandler::new(), record, "lake ports=1\n", 50).ok().unwrap().0
    };
    for count in [2u32, 3, 1000, u32::MAX] {
        let mut record = MainLockInfo { process_counter: count - 1, timestamp: 100 };
        let runner = runner_of(&mut record);
        assert!(on_resources(&runner.exit(&mut record)).is_empty());
        assert_eq!(record.process_counter, count - 1);
    }
    let mut record = MainLockInfo { process_counter: 0, timestamp: 100 };
    let runner = runner_of(&mut record);
    assert_eq!(on_resources(&runner.exit(&mut record)).len(), 6);
    assert_eq!(record.process_counter, 0);
}

#[test]
fn stale_join_needs_no_room_in_the_count() {
    let mut record = MainLockInfo { process_counter: u32::MAX, timestamp: 100 };
    let joined = LiveObjectRunner::new(QuitHandler::new(), &mut record, "lake ports=2\n", 100);
    assert!(matches!(joined, Err(LakeError::StaleConfiguration)));
    assert_eq!(record.process_counter, u32::MAX);
}

#[test]
fn failed_creation_is_taken_back() {
    let plan = lake_of(1).create_ipcs();
    assert!(rollback(&plan, 0).is_empty());
    let expected: Vec<(IpcKind, String)> = vec![
        (IpcKind::Unlink, "port-0.lock".into()),
        (IpcKind::RemoveSharedTable, "status.lock".into()),
        (IpcKind::Unlink, "status.lock".into()),
    ];
    // the fourth step failed: the three before it are undone, last first
    assert_eq!(listed(&rollback(&plan, 3)), expected);
    let all: Vec<(IpcKind, String)> = vec![
        (IpcKind::Unlink, "port-0-confirm.fifo".into()),
        (IpcKind::Unlink, "port-0-board.fifo".into()),
        (IpcKind::Unlink, "port-0-board.fifo.lock".into()),
        (IpcKind::Unlink, "port-0.lock".into()),
        (IpcKind::RemoveSharedTable, "status.lock".into()),
        (IpcKind::Unlink, "status.lock".into()),
    ];
    assert_eq!(listed(&rollback(&plan, plan.len())), all);
}

#[test]
fn failed_attach_has_nothing_to_take_back() {
    let plan = lake_of(2).attach_ipcs();
    for failed_at in 0..=plan.len() {
        assert!(rollback(&plan, failed_at).is_empty());
    }
}

#[test]
fn failed_steps_are_named() {
    let lake = lake_of(2);
    for step in lake.create_ipcs() {
        assert_eq!(failure_of(step.kind, 17), LakeError::ResourceCollision);
        assert_eq!(failure_of(step.kind, 2), LakeError::Io);
        assert_eq!(failure_of(step.kind, 13), LakeError::Io);
    }
    for step in lake.attach_ipcs() {
        assert_eq!(failure_of(step.kind, 2), LakeError::ResourceMissing);
        assert_eq!(failure_of(step.kind, 17), LakeError::Io);
    }
    for step in lake.destroy() {
        assert_eq!(failure_of(step.kind, 2), LakeError::ResourceMissing);
        assert_eq!(failure_of(step.kind, 1), LakeError::Io);
    }
    assert_eq!(failure_of(IpcKind::CreateSemaphore, 17), LakeError::ResourceCollision);
    assert_eq!(failure_of(IpcKind::RemoveSemaphore, 2), LakeError::ResourceMissing);
}

fn taken(steps: &Vec<IoStep>) -> Vec<(IoKind, String, String)> {
    steps.iter().map(|step| (step.kind, step.path.clone(), step.line.clone())).collect()
}

#[test]
fn the_table_is_touched_under_its_lock() {
    let lake = lake_of(3);
    let bare = |kind: IoKind, path: &str| (kind, path.to_string(), String::new());
    assert_eq!(
        taken(&lake.taking_steps(2)),
        vec![
            bare(IoKind::Lock, "port-2.lock"),
            bare(IoKind::Lock, "status.lock"),
            bare(IoKind::Load, "status.lock"),
            bare(IoKind::Store, "status.lock"),
            bare(IoKind::Unlock, "status.lock"),
        ]
    );
    assert_eq!(
        taken(&lake.leaving_steps(2)),
        vec![
            bare(IoKind::Lock, "status.lock"),
            bare(IoKind::Load, "status.lock"),
            bare(IoKind::Store, "status.lock"),
            bare(IoKind::Unlock, "status.lock"),
            bare(IoKind::Unlock, "port-2.lock"),
        ]
    );
    assert_eq!(
        taken(&lake.looking_steps()),
        vec![
            bare(IoKind::Lock, "status.lock"),
            bare(IoKind::Load, "status.lock"),
            bare(IoKind::Unlock, "status.lock"),
        ]
    );
}

#[test]
fn failed_join_writes_no_record() {
    let mut record = MainLockInfo::create(100);
    let (_, plan) =
        LiveObjectRunner::new(QuitHandler::new(), &mut record, "lake ports=1\n", 50).ok().unwrap();
    // whichever step fails, what undoes it neither writes the record nor lets its lock go
    for failed_at in 0..=plan.len() {
        for step in rollback(&plan, failed_at) {
            assert!(matches!(step.kind, IpcKind::Unlink | IpcKind::RemoveSharedTable));
            assert_ne!(step.path, "tp1.lock");
        }
    }
    assert_eq!(rollback(&plan, plan.len()).len(), 6);
}
