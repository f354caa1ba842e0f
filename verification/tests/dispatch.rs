use shard_core::dispatch::{
    step, Command, ShardHandle, ShardRestartResult, ShardRestartType, Signal, State,
};

#[test]
fn restart_result_is_forced() {
    assert!(ShardRestartResult::ForcedRestart.is_forced());
    assert!(!ShardRestartResult::Restarted.is_forced());
}

#[test]
fn first_request_is_accepted_and_later_ones_are_forced() {
    let mut handle = ShardHandle::new();
    assert_eq!(handle.restart(ShardRestartType::Normal), ShardRestartResult::Restarted);
    assert_eq!(handle.restart(ShardRestartType::Resume), ShardRestartResult::ForcedRestart);
    assert_eq!(handle.restart(ShardRestartType::Normal), ShardRestartResult::ForcedRestart);
}

#[test]
fn only_the_last_request_is_observed() {
    let mut handle = ShardHandle::new();
    handle.restart(ShardRestartType::Normal);
    handle.restart(ShardRestartType::Normal);
    handle.restart(ShardRestartType::Resume);
    assert_eq!(handle.observe(), Some(ShardRestartType::Resume));
}

#[test]
fn a_slot_is_observed_once() {
    let mut handle = ShardHandle::new();
    assert_eq!(handle.observe(), None);
    handle.restart(ShardRestartType::Normal);
    assert_eq!(handle.observe(), Some(ShardRestartType::Normal));
    assert_eq!(handle.observe(), None);
    assert_eq!(handle.restart(ShardRestartType::Resume), ShardRestartResult::ForcedRestart);
    assert_eq!(handle.observe(), None);
}

#[test]
fn a_closed_handle_is_invalid_and_hands_out_nothing() {
    let mut handle = ShardHandle::new();
    assert!(handle.is_valid());
    handle.restart(ShardRestartType::Resume);
    handle.close();
    assert!(!handle.is_valid());
    assert_eq!(handle.observe(), None);
}

#[test]
fn states_tell_themselves_apart() {
    assert!(State::Active.is_active());
    assert!(!State::Active.is_restart());
    assert!(!State::Active.is_shutdown());
    assert!(State::Restart.is_restart());
    assert!(!State::Restart.is_active());
    assert!(State::Shutdown.is_shutdown());
    assert!(!State::Shutdown.is_restart());
}

#[test]
fn shutdown_while_active_closes_with_the_resume_policy_once() {
    let mut handle = ShardHandle::new();
    let (state, command) = step(State::Active, Signal::Shutdown, &mut handle);
    assert_eq!(state, State::Shutdown);
    assert_eq!(command, Command::Close(ShardRestartType::Resume));
    let (state, command) = step(state, Signal::Shutdown, &mut handle);
    assert_eq!(state, State::Shutdown);
    assert_eq!(command, Command::Idle);
    let (state, command) = step(state, Signal::Event, &mut handle);
    assert_eq!((state, command), (State::Shutdown, Command::Dispatch));
    assert!(handle.is_valid());
    let (state, command) = step(state, Signal::CloseConfirmed, &mut handle);
    assert_eq!((state, command), (State::Shutdown, Command::Finish));
    assert!(!handle.is_valid());
}

#[test]
fn restart_closes_with_the_policy_of_the_request_and_rotates() {
    let mut handle = ShardHandle::new();
    handle.restart(ShardRestartType::Normal);
    let (state, command) = step(State::Active, Signal::SlotChanged, &mut handle);
    assert_eq!((state, command), (State::Restart, Command::Close(ShardRestartType::Normal)));
    assert!(handle.is_valid());
    let (state, command) = step(state, Signal::CloseConfirmed, &mut handle);
    assert_eq!((state, command), (State::Active, Command::Rotate));
    assert!(!handle.is_valid());
}

#[test]
fn a_request_during_a_restart_changes_nothing() {
    let mut handle = ShardHandle::new();
    handle.restart(ShardRestartType::Resume);
    let (state, command) = step(State::Active, Signal::SlotChanged, &mut handle);
    assert_eq!((state, command), (State::Restart, Command::Close(ShardRestartType::Resume)));
    assert_eq!(handle.restart(ShardRestartType::Normal), ShardRestartResult::ForcedRestart);
    let (state, command) = step(state, Signal::SlotChanged, &mut handle);
    assert_eq!((state, command), (State::Restart, Command::Idle));
    assert!(handle.is_valid());
    assert_eq!(handle.observe(), None);
    let (state, command) = step(state, Signal::Event, &mut handle);
    assert_eq!((state, command), (State::Restart, Command::Dispatch));
    let (state, command) = step(state, Signal::CloseConfirmed, &mut handle);
    assert_eq!((state, command), (State::Active, Command::Rotate));
    assert!(!handle.is_valid());
}

#[test]
fn shutdown_during_a_restart_sends_no_second_close_frame() {
    let mut handle = ShardHandle::new();
    handle.restart(ShardRestartType::Normal);
    let (state, _) = step(State::Active, Signal::SlotChanged, &mut handle);
    let (state, command) = step(state, Signal::Shutdown, &mut handle);
    assert_eq!((state, command), (State::Shutdown, Command::Idle));
    let (state, command) = step(state, Signal::SlotChanged, &mut handle);
    assert_eq!((state, command), (State::Shutdown, Command::Idle));
    let (_, command) = step(state, Signal::CloseConfirmed, &mut handle);
    assert_eq!(command, Command::Finish);
}

#[test]
fn a_close_event_while_active_is_dispatched() {
    let mut handle = ShardHandle::new();
    let (state, command) = step(State::Active, Signal::CloseConfirmed, &mut handle);
    assert_eq!((state, command), (State::Active, Command::Dispatch));
    assert!(handle.is_valid());
}

#[test]
fn a_receive_error_is_reported_and_changes_nothing() {
    let mut handle = ShardHandle::new();
    for state in [State::Active, State::Restart, State::Shutdown] {
        let (next, command) = step(state, Signal::ReceiveError, &mut handle);
        assert_eq!((next, command), (state, Command::Report));
    }
    assert!(handle.is_valid());
}

#[test]
fn the_end_of_the_stream_ends_the_generation() {
    let mut handle = ShardHandle::new();
    let (_, command) = step(State::Active, Signal::StreamEnded, &mut handle);
    assert_eq!(command, Command::Finish);
    assert!(!handle.is_valid());
    let mut handle = ShardHandle::new();
    let (state, command) = step(State::Restart, Signal::StreamEnded, &mut handle);
    assert_eq!((state, command), (State::Active, Command::Rotate));
}

#[test]
fn a_slot_change_with_nothing_pending_is_ignored() {
    let mut handle = ShardHandle::new();
    let (state, command) = step(State::Active, Signal::SlotChanged, &mut handle);
    assert_eq!((state, command), (State::Active, Command::Idle));
}
