use buzzoperator::configuration::ServiceConfig;
use buzzoperator::connect_addr::{ConnectAddr, IpAddr};
use buzzoperator::error::{ServiceBunchError, ServiceUnitError};
use buzzoperator::message::Message;
use buzzoperator::service_bunch::{
    BunchEvent, BunchStep, ServiceBunch, UnitErrorAction, UpdateAction, UpdateEvent,
};
use buzzoperator::state_machine::State;

const SECOND: u64 = 1_000_000_000;

fn sock(n: u32) -> ConnectAddr {
    ConnectAddr::Unix(format!("test_app/sockets/test-socket-{}", n))
}

fn texts(addrs: &[ConnectAddr]) -> Vec<String> {
    addrs.iter().map(|a| a.to_display_string()).collect()
}

/// A running bunch of the test configuration with stable units 101, 102,
/// 103 on sockets 1, 2, 3.
fn running_bunch(now: u64) -> ServiceBunch {
    let mut bunch = ServiceBunch::new(ServiceConfig::create_test_config(), now);
    for n in 1..=3u32 {
        bunch.add_stable_unit(100 + n, sock(n));
    }
    let _ = bunch.finish_run();
    bunch
}

fn stable_pids(bunch: &ServiceBunch) -> Vec<u32> {
    bunch.stable_units().iter().map(|u| u.get_pid()).collect()
}

#[test]
fn a_new_bunch_is_starting_and_empty() {
    let bunch = ServiceBunch::new(ServiceConfig::create_test_config(), 7);
    assert_eq!(bunch.current_state(), State::Starting);
    assert!(bunch.stable_units().is_empty());
    assert!(bunch.new_units().is_empty());
    assert_eq!(bunch.get_config().name, "test");
}

#[test]
fn finishing_the_run_reports_the_addresses() {
    let mut bunch = ServiceBunch::new(ServiceConfig::create_test_config(), 0);
    bunch.add_stable_unit(11, sock(1));
    bunch.add_stable_unit(12, sock(2));
    let (message, addrs) = bunch.finish_run();
    assert_eq!(bunch.current_state(), State::Running);
    assert_eq!(
        texts(&addrs),
        vec!["test_app/sockets/test-socket-1", "test_app/sockets/test-socket-2"]
    );
    match message {
        Message::UnitsSpawned(name, spawned) => {
            assert_eq!(name, "test");
            assert_eq!(texts(&spawned), texts(&addrs));
        }
        other => panic!("unexpected message {:?}", other),
    }
}

#[test]
fn failures_within_the_window_are_counted_up_to_the_limit() {
    let mut bunch = running_bunch(0);
    // the test configuration tolerates five failures
    for k in 1..=5u64 {
        assert_eq!(bunch.reg_new_failure_and_is_limit_exceeded(101, k * SECOND), false);
    }
    assert_eq!(bunch.reg_new_failure_and_is_limit_exceeded(102, 6 * SECOND), true);
}

#[test]
fn a_failure_after_the_window_opens_a_new_one() {
    let mut bunch = running_bunch(0);
    for k in 1..=5u64 {
        assert_eq!(bunch.reg_new_failure_and_is_limit_exceeded(101, k * SECOND), false);
    }
    // more than a minute after the window opened: not counted, count reset
    assert_eq!(bunch.reg_new_failure_and_is_limit_exceeded(101, 61 * SECOND), false);
    for k in 1..=5u64 {
        assert_eq!(
            bunch.reg_new_failure_and_is_limit_exceeded(101, (61 + k) * SECOND),
            false
        );
    }
    assert_eq!(bunch.reg_new_failure_and_is_limit_exceeded(101, 70 * SECOND), true);
}

#[test]
fn exactly_one_minute_is_still_within_the_window() {
    let mut bunch = running_bunch(0);
    for _ in 0..5 {
        assert_eq!(bunch.reg_new_failure_and_is_limit_exceeded(101, 60 * SECOND), false);
    }
    assert_eq!(bunch.reg_new_failure_and_is_limit_exceeded(101, 60 * SECOND), true);
}

#[test]
fn an_unknown_unit_failure_is_not_counted() {
    let mut bunch = running_bunch(0);
    for _ in 0..10 {
        assert_eq!(bunch.reg_new_failure_and_is_limit_exceeded(999, SECOND), false);
    }
}

#[test]
fn stable_pid_check() {
    let mut bunch = running_bunch(0);
    assert!(bunch.is_stable_pid(101));
    bunch.begin_update();
    let _ = bunch.add_new_unit(201, sock(4));
    assert!(!bunch.is_stable_pid(201));
    assert!(bunch.is_stable_pid(101));
}

#[test]
fn an_exited_stable_unit_is_restarted_one_for_one() {
    let mut bunch = running_bunch(0);
    let err = ServiceUnitError::ExitError { id: 102, err: "exit status: 1".to_string() };
    let action = bunch.handle_service_unit_error(err, SECOND);
    let lost = match action {
        UnitErrorAction::Restart { lost_pid } => lost_pid,
        _ => panic!("expected a restart"),
    };
    assert_eq!(lost, 102);
    let message = bunch.complete_replacement(104, sock(4), lost);
    match message {
        Some(Message::UnitReplaced { name, old, new }) => {
            assert_eq!(name, "test");
            assert_eq!(old.to_display_string(), "test_app/sockets/test-socket-2");
            assert_eq!(new.to_display_string(), "test_app/sockets/test-socket-4");
        }
        other => panic!("unexpected message {:?}", other),
    }
    assert_eq!(stable_pids(&bunch), vec![101, 103, 104]);
    assert_eq!(bunch.current_state(), State::Running);
}

#[test]
fn replacing_an_unknown_unit_only_adds() {
    let mut bunch = running_bunch(0);
    let message = bunch.complete_replacement(104, sock(4), 555);
    assert!(message.is_none());
    assert_eq!(stable_pids(&bunch), vec![101, 102, 103, 104]);
}

#[test]
fn exceeding_the_limit_terminates_all_units() {
    let mut bunch = running_bunch(0);
    for k in 1..=5u64 {
        let err = ServiceUnitError::ExitError { id: 101, err: "crash".to_string() };
        assert!(matches!(
            bunch.handle_service_unit_error(err, k * SECOND),
            UnitErrorAction::Restart { lost_pid: 101 }
        ));
    }
    let err = ServiceUnitError::ExitError { id: 103, err: "crash".to_string() };
    match bunch.handle_service_unit_error(err, 6 * SECOND) {
        UnitErrorAction::TerminateAll(t) => {
            let pids: Vec<u32> = t.units.iter().map(|u| u.get_pid()).collect();
            assert_eq!(pids, vec![101, 102, 103]);
            match t.message {
                Message::UnitsDespawned(name, addrs) => {
                    assert_eq!(name, "test");
                    assert_eq!(addrs.len(), 3);
                    assert_eq!(addrs[2].to_display_string(), "test_app/sockets/test-socket-3");
                }
                other => panic!("unexpected message {:?}", other),
            }
        }
        _ => panic!("expected termination"),
    }
    assert!(bunch.stable_units().is_empty());
    assert_eq!(bunch.current_state(), State::Stopping);
}

#[test]
fn an_unhealthy_stable_unit_is_replaced() {
    let mut bunch = running_bunch(0);
    let err = ServiceUnitError::HealthCheckFailed(sock(3));
    match bunch.handle_service_unit_error(err, SECOND) {
        UnitErrorAction::ReplaceUnhealthy { unhealthy } => {
            assert_eq!(unhealthy.get_pid(), 103);
            assert_eq!(unhealthy.addr().to_display_string(), "test_app/sockets/test-socket-3");
        }
        _ => panic!("expected a replacement"),
    }
    assert_eq!(stable_pids(&bunch), vec![101, 102, 103]);
}

#[test]
fn a_health_failure_of_an_unknown_address_does_nothing() {
    let mut bunch = running_bunch(0);
    let err = ServiceUnitError::HealthCheckFailed(ConnectAddr::Tcp {
        addr: IpAddr::V4(127, 0, 0, 1),
        port: 1,
    });
    assert!(matches!(bunch.handle_service_unit_error(err, SECOND), UnitErrorAction::Nothing));
    assert_eq!(bunch.current_state(), State::Running);
}

#[test]
fn other_unit_errors_do_nothing() {
    let mut bunch = running_bunch(0);
    let a = bunch.handle_service_unit_error(ServiceUnitError::MpscError, SECOND);
    assert!(matches!(a, UnitErrorAction::Nothing));
    let b = bunch.handle_service_unit_error(
        ServiceUnitError::ServiceNotStarted("no such file".to_string()),
        SECOND,
    );
    assert!(matches!(b, UnitErrorAction::Nothing));
    assert_eq!(stable_pids(&bunch), vec![101, 102, 103]);
}

#[test]
fn an_unhealthy_new_unit_stops_the_update() {
    let mut bunch = running_bunch(0);
    bunch.begin_update();
    assert_eq!(bunch.current_state(), State::Updating);
    let _ = bunch.add_new_unit(201, sock(4));
    let err = ServiceUnitError::HealthCheckFailed(sock(4));
    assert!(matches!(bunch.handle_service_unit_error(err, SECOND), UnitErrorAction::Nothing));
    assert_eq!(bunch.current_state(), State::Running);
    assert!(!bunch.update_in_progress());
    let interrupted = bunch.interrupt_if_not_updating().expect("update interrupted");
    let pids: Vec<u32> = interrupted.iter().map(|u| u.get_pid()).collect();
    assert_eq!(pids, vec![201]);
    assert!(bunch.new_units().is_empty());
    assert_eq!(stable_pids(&bunch), vec![101, 102, 103]);
}

#[test]
fn an_exited_new_unit_stops_the_update() {
    let mut bunch = running_bunch(0);
    bunch.begin_update();
    let _ = bunch.add_new_unit(201, sock(4));
    let err = ServiceUnitError::ExitError { id: 201, err: "bad".to_string() };
    assert!(matches!(bunch.handle_service_unit_error(err, SECOND), UnitErrorAction::Nothing));
    assert_eq!(bunch.current_state(), State::Running);
    assert_eq!(stable_pids(&bunch), vec![101, 102, 103]);
}

#[test]
fn a_rolling_update_replaces_every_stable_unit() {
    let mut bunch = running_bunch(0);
    bunch.begin_update();
    assert!(bunch.update_in_progress());
    assert!(bunch.interrupt_if_not_updating().is_none());
    let mut n = 4u32;
    while bunch.update_in_progress() {
        match bunch.add_new_unit(200 + n, sock(n)) {
            Message::UnitSpawned(name, addr) => {
                assert_eq!(name, "test");
                assert_eq!(addr.to_display_string(), sock(n).to_display_string());
            }
            other => panic!("unexpected message {:?}", other),
        }
        let (retired, message) = bunch.retire_one_stable();
        assert_eq!(retired.get_pid(), 100 + (7 - n));
        match message {
            Message::UnitDespawned(_, addr) => {
                // the retired unit's own address
                assert_eq!(addr.to_display_string(), sock(7 - n).to_display_string())
            }
            other => panic!("unexpected message {:?}", other),
        }
        n += 1;
    }
    assert!(bunch.stable_units().is_empty());
    match bunch.finish_update() {
        Message::UpdateFinished(name) => assert_eq!(name, "test"),
        other => panic!("unexpected message {:?}", other),
    }
    assert_eq!(bunch.current_state(), State::Running);
    assert_eq!(stable_pids(&bunch), vec![204, 205, 206]);
    assert!(bunch.new_units().is_empty());
}

#[test]
fn a_unit_that_cannot_start_while_starting_stops_the_bunch() {
    let mut bunch = ServiceBunch::new(ServiceConfig::create_test_config(), 0);
    bunch.add_stable_unit(11, sock(1));
    let failure = bunch.spawn_failed();
    assert!(matches!(failure.error, ServiceBunchError::FailedToStart));
    assert_eq!(failure.error.to_display_string(), "Failed to start");
    let t = failure.termination;
    assert_eq!(t.units.len(), 1);
    assert!(bunch.stable_units().is_empty());
    // a stop request does not move a starting bunch
    assert_eq!(bunch.current_state(), State::Starting);
}

#[test]
fn a_unit_that_cannot_start_while_updating_stops_the_bunch() {
    let mut bunch = running_bunch(0);
    bunch.begin_update();
    let failure = bunch.spawn_failed();
    assert_eq!(failure.termination.units.len(), 3);
    assert!(matches!(failure.termination.message, Message::UnitsDespawned(..)));
    assert!(matches!(failure.error, ServiceBunchError::FailedToStart));
    assert_eq!(bunch.current_state(), State::Stopping);
    assert!(bunch.stable_units().is_empty());
}

#[test]
fn terminate_hands_out_the_stable_units() {
    let mut bunch = running_bunch(0);
    let t = bunch.terminate();
    assert_eq!(t.units.len(), 3);
    assert!(bunch.stable_units().is_empty());
    assert_eq!(bunch.current_state(), State::Stopping);
}

#[test]
fn wait_steps() {
    let mut bunch = running_bunch(0);
    assert!(matches!(
        bunch.wait_on_step(BunchEvent::UnitExited, SECOND),
        BunchStep::Continue(UnitErrorAction::Nothing)
    ));
    assert!(matches!(
        bunch.wait_on_step(BunchEvent::ControllerMessage(Message::StartUpdate), SECOND),
        BunchStep::StartUpdate
    ));
    assert!(matches!(
        bunch.wait_on_step(
            BunchEvent::UnitFailed(ServiceUnitError::ExitError { id: 101, err: "x".to_string() }),
            SECOND
        ),
        BunchStep::Continue(UnitErrorAction::Restart { lost_pid: 101 })
    ));
    assert!(matches!(
        bunch.wait_on_step(BunchEvent::ControllerMessage(Message::HealthCheckFailed(sock(2))), SECOND),
        BunchStep::Continue(UnitErrorAction::ReplaceUnhealthy { .. })
    ));
    assert!(matches!(
        bunch.wait_on_step(BunchEvent::AllUnitsFinished, SECOND),
        BunchStep::Exit { termination: None, result: Ok(()) }
    ));
    assert_eq!(stable_pids(&bunch), vec![101, 102, 103]);
}

#[test]
fn a_shutdown_stops_the_bunch_successfully() {
    let mut bunch = running_bunch(0);
    match bunch.wait_on_step(BunchEvent::ControllerMessage(Message::Shutdown), SECOND) {
        BunchStep::Exit { termination: Some(t), result: Ok(()) } => assert_eq!(t.units.len(), 3),
        _ => panic!("expected a successful exit"),
    }
    assert!(bunch.stable_units().is_empty());
    assert_eq!(bunch.current_state(), State::Stopping);
}

#[test]
fn a_join_error_stops_the_bunch_with_it() {
    let mut bunch = running_bunch(0);
    match bunch.wait_on_step(BunchEvent::JoinFailed("task panicked".to_string()), SECOND) {
        BunchStep::Exit { termination: Some(t), result: Err(ServiceBunchError::JoinError(e)) } => {
            assert_eq!(t.units.len(), 3);
            assert_eq!(e, "task panicked");
        }
        _ => panic!("expected a join error"),
    }
}

#[test]
fn a_closed_controller_stops_the_bunch_with_an_error() {
    let mut bunch = running_bunch(0);
    match bunch.wait_on_step(BunchEvent::ControllerClosed, SECOND) {
        BunchStep::Exit { termination: Some(_), result: Err(e) } => {
            assert!(matches!(e, ServiceBunchError::ControllerConnectionDropped));
            assert_eq!(e.to_display_string(), "Controller connection dropped");
        }
        _ => panic!("expected an error exit"),
    }
}

#[test]
fn unit_error_texts() {
    let e = ServiceUnitError::ExitError { id: 42, err: "exit status: 3".to_string() };
    assert_eq!(e.to_display_string(), "exit status: 3 pid: 42 ");
    assert_eq!(ServiceUnitError::MpscError.to_display_string(), "Mpsc error");
    assert_eq!(
        ServiceUnitError::ServiceNotStarted("denied".to_string()).to_display_string(),
        "denied"
    );
    let h = ServiceUnitError::HealthCheckFailed(ConnectAddr::Tcp {
        addr: IpAddr::V4(127, 0, 0, 1),
        port: 8000,
    });
    assert_eq!(h.to_display_string(), "Health check failed, addr: 127.0.0.1:8000");
}

#[test]
fn bunch_error_texts() {
    assert_eq!(
        ServiceBunchError::FailedCreateAddress("no dir".to_string()).to_display_string(),
        "no dir"
    );
    assert_eq!(ServiceBunchError::JoinError("j".to_string()).to_display_string(), "j");
    assert_eq!(ServiceBunchError::UpdateIterrupted.to_display_string(), "Update interrupted");
}

#[test]
fn failures_can_be_counted_while_below_the_maximum() {
    let bunch = running_bunch(0);
    let exit = BunchEvent::UnitFailed(ServiceUnitError::ExitError { id: 101, err: "e".to_string() });
    assert!(bunch.can_count_failure(&exit));
    let health = BunchEvent::ControllerMessage(Message::HealthCheckFailed(sock(1)));
    assert!(bunch.can_count_failure(&health));
    assert!(bunch.can_count_failure(&BunchEvent::AllUnitsFinished));
}

#[test]
fn a_unit_of_the_new_version_has_a_limit_of_one() {
    let mut bunch = running_bunch(0);
    bunch.begin_update();
    let _ = bunch.add_new_unit(300, sock(9));
    assert_eq!(bunch.reg_new_failure_and_is_limit_exceeded(300, SECOND), true);
    let _ = bunch.add_new_unit(101, sock(1));
    assert_eq!(bunch.reg_new_failure_and_is_limit_exceeded(101, SECOND), true);
}

#[test]
fn a_planned_rolling_update_step_by_step() {
    let mut bunch = running_bunch(0);
    let mut action = bunch.begin_rolling_update();
    assert_eq!(bunch.current_state(), State::Updating);
    let mut n = 4u32;
    loop {
        match action {
            UpdateAction::FindAddress => {
                action = bunch.rolling_update_step(UpdateEvent::AddressFound(sock(n)));
            }
            UpdateAction::StartUnit(addr) => {
                assert_eq!(addr.to_display_string(), sock(n).to_display_string());
                action = bunch.rolling_update_step(UpdateEvent::UnitStarted(200 + n));
            }
            UpdateAction::Pause(Message::UnitSpawned(name, addr)) => {
                assert_eq!(name, "test");
                assert_eq!(addr.to_display_string(), sock(n).to_display_string());
                action = bunch.rolling_update_step(UpdateEvent::PauseOver);
            }
            UpdateAction::Retire(unit, Message::UnitDespawned(_, addr)) => {
                assert_eq!(unit.get_pid(), 100 + (7 - n));
                assert_eq!(addr.to_display_string(), sock(7 - n).to_display_string());
                n += 1;
                action = bunch.rolling_update_step(UpdateEvent::Retired);
            }
            UpdateAction::Finish { termination, message, result } => {
                assert!(termination.is_empty());
                assert!(matches!(message, Some(Message::UpdateFinished(_))));
                assert!(result.is_ok());
                break;
            }
            _ => panic!("unexpected action"),
        }
    }
    assert_eq!(n, 7);
    assert_eq!(bunch.current_state(), State::Running);
    assert_eq!(stable_pids(&bunch), vec![204, 205, 206]);
}

#[test]
fn a_new_unit_that_cannot_start_stops_the_bunch() {
    let mut bunch = running_bunch(0);
    let action = bunch.begin_rolling_update();
    assert!(matches!(action, UpdateAction::FindAddress));
    let action = bunch.rolling_update_step(UpdateEvent::AddressFound(sock(4)));
    assert!(matches!(action, UpdateAction::StartUnit(_)));
    match bunch.rolling_update_step(UpdateEvent::UnitFailedToStart) {
        UpdateAction::Finish { termination, message, result } => {
            assert_eq!(termination.len(), 3);
            assert!(matches!(message, Some(Message::UnitsDespawned(..))));
            assert!(matches!(result, Err(ServiceBunchError::FailedToStart)));
        }
        _ => panic!("expected the update to end"),
    }
    assert_eq!(bunch.current_state(), State::Stopping);
    assert!(bunch.stable_units().is_empty());
}

#[test]
fn no_address_ends_the_update_with_the_error() {
    let mut bunch = running_bunch(0);
    let _ = bunch.begin_rolling_update();
    match bunch.rolling_update_step(UpdateEvent::AddressFailed("no dir".to_string())) {
        UpdateAction::Finish { termination, message, result: Err(ServiceBunchError::FailedCreateAddress(e)) } => {
            assert!(termination.is_empty());
            assert!(message.is_none());
            assert_eq!(e, "no dir");
        }
        _ => panic!("expected the update to end"),
    }
    assert_eq!(stable_pids(&bunch), vec![101, 102, 103]);
}

#[test]
fn an_update_stopped_midway_is_interrupted() {
    let mut bunch = running_bunch(0);
    let _ = bunch.begin_rolling_update();
    let _ = bunch.rolling_update_step(UpdateEvent::AddressFound(sock(4)));
    let _ = bunch.rolling_update_step(UpdateEvent::UnitStarted(204));
    let _ = bunch.rolling_update_step(UpdateEvent::PauseOver);
    // the new unit's health check fails before the next step
    let err = ServiceUnitError::HealthCheckFailed(sock(4));
    assert!(matches!(bunch.handle_service_unit_error(err, SECOND), UnitErrorAction::Nothing));
    match bunch.rolling_update_step(UpdateEvent::Retired) {
        UpdateAction::Finish { termination, message, result } => {
            let pids: Vec<u32> = termination.iter().map(|u| u.get_pid()).collect();
            assert_eq!(pids, vec![204]);
            assert!(message.is_none());
            assert!(matches!(result, Err(ServiceBunchError::UpdateIterrupted)));
        }
        _ => panic!("expected the update to end"),
    }
    assert_eq!(bunch.current_state(), State::Running);
    assert_eq!(stable_pids(&bunch), vec![101, 102]);
}
