use letsnote_wheelpad::error::{Errno, Error, IoFailure, IoKind};
use letsnote_wheelpad::event_loop::{
    exit_result, EventLoop, LoopCommand, LoopEvent, LoopState, Readiness, EIO, ENODEV, POLLERR,
    POLLHUP, POLLIN, POLLNVAL, POLL_BROKEN,
};
use letsnote_wheelpad::fsm::Action;
use letsnote_wheelpad::runtime::{LoopExit, SIGINT, SIGTERM};
use letsnote_wheelpad::startup::{config_request, device_path, log_filter};
use letsnote_wheelpad::config::ConfigRequest;
use std::path::PathBuf;

fn step(event_loop: &mut EventLoop, event: LoopEvent) -> LoopCommand {
    assert!(event_loop.accepts(&event));
    event_loop.step(event, false)
}

fn ready(input: u16, signal: u16) -> LoopEvent {
    LoopEvent::PollReady {
        input: Readiness { bits: input },
        signal: Readiness { bits: signal },
        report: "POLLHUP".to_string(),
    }
}

fn started() -> EventLoop {
    let (event_loop, command) = EventLoop::start(false);
    assert!(matches!(command, LoopCommand::Poll { timeout_ms: -1 }));
    event_loop
}

fn reading_frames() -> EventLoop {
    let mut event_loop = started();
    let command = step(&mut event_loop, ready(POLLIN, 0));
    assert!(matches!(command, LoopCommand::ReadFrames));
    event_loop
}

#[test]
fn flags_are_those_of_the_system() {
    assert_eq!(POLLIN, libc::POLLIN as u16);
    assert_eq!(POLLERR, libc::POLLERR as u16);
    assert_eq!(POLLHUP, libc::POLLHUP as u16);
    assert_eq!(POLLNVAL, libc::POLLNVAL as u16);
    assert_eq!(POLL_BROKEN, POLLERR | POLLHUP | POLLNVAL);
    assert_eq!(EIO, libc::EIO);
    assert_eq!(ENODEV, libc::ENODEV);
}

#[test]
fn waiting_is_limited_while_scrolling() {
    let (mut event_loop, command) = EventLoop::start(true);
    assert!(matches!(command, LoopCommand::Poll { timeout_ms: 1_000 }));
    let command = event_loop.step(LoopEvent::PollInterrupted, true);
    assert!(matches!(command, LoopCommand::Poll { timeout_ms: 1_000 }));
    let command = event_loop.step(ready(0, 0), false);
    assert!(matches!(command, LoopCommand::Poll { timeout_ms: -1 }));
}

#[test]
fn failed_waiting_stops_the_loop() {
    let mut event_loop = started();
    let command = step(&mut event_loop, LoopEvent::PollFailed(Errno { code: 12 }));
    assert!(matches!(
        command,
        LoopCommand::Stop(LoopExit::PollFailed { source: Errno { code: 12 } })
    ));
    assert!(!event_loop.accepts(&LoopEvent::PollInterrupted));
}

#[test]
fn signals_are_answered_before_input() {
    for number in [SIGTERM, SIGINT] {
        let mut event_loop = started();
        let command = step(&mut event_loop, ready(POLLIN | POLLHUP, POLLIN));
        assert!(matches!(command, LoopCommand::ReadSignal));
        let command = step(&mut event_loop, LoopEvent::SignalRead(Ok(Some(number))));
        assert!(matches!(
            command,
            LoopCommand::Stop(LoopExit::RequestedShutdown)
        ));
    }
}

#[test]
fn other_signals_do_not_keep_input_from_being_read() {
    let mut event_loop = started();
    step(&mut event_loop, ready(POLLIN, POLLIN));
    let command = step(&mut event_loop, LoopEvent::SignalRead(Ok(None)));
    assert!(matches!(command, LoopCommand::ReadFrames));
}

#[test]
fn broken_signal_stops_the_loop() {
    let mut event_loop = started();
    let command = step(&mut event_loop, ready(POLLIN, POLLNVAL));
    assert!(matches!(
        command,
        LoopCommand::Stop(LoopExit::SignalReadFailed { source: Errno { code: 5 } })
    ));
    let mut event_loop = started();
    step(&mut event_loop, ready(0, POLLIN));
    let command = step(&mut event_loop, LoopEvent::SignalRead(Err(Errno { code: 4 })));
    assert!(matches!(
        command,
        LoopCommand::Stop(LoopExit::SignalReadFailed { source: Errno { code: 4 } })
    ));
}

#[test]
fn broken_input_is_a_disconnection() {
    for flag in [POLLERR, POLLHUP, POLLNVAL] {
        let mut event_loop = started();
        match step(&mut event_loop, ready(POLLIN | flag, 0)) {
            LoopCommand::Stop(LoopExit::InputDisconnected { source }) => {
                assert_eq!(source.kind, IoKind::BrokenPipe);
                assert_eq!(source.text, "poll reported POLLHUP");
            }
            other => panic!("unexpected command: {other:?}"),
        }
    }
}

#[test]
fn vanished_device_is_a_disconnection() {
    let gone = IoFailure {
        kind: IoKind::Other,
        os_error: Some(ENODEV),
        text: "No such device".to_string(),
    };
    let command = step(&mut reading_frames(), LoopEvent::FramesRead(Err(gone)));
    assert!(matches!(
        command,
        LoopCommand::Stop(LoopExit::InputDisconnected { source }) if source.os_error == Some(19)
    ));
    let unread = LoopEvent::FramesRead(Err(IoFailure::other("bad")));
    let command = step(&mut reading_frames(), unread);
    assert!(matches!(
        command,
        LoopCommand::Stop(LoopExit::InputReadFailed { source }) if source.text == "bad"
    ));
}

#[test]
fn no_frames_lead_back_to_waiting() {
    let command = step(&mut reading_frames(), LoopEvent::FramesRead(Ok(0)));
    assert!(matches!(command, LoopCommand::Poll { timeout_ms: -1 }));
}

#[test]
fn every_frame_is_processed_and_forwarded_in_order() {
    let mut event_loop = reading_frames();
    let actions = [
        Action::Nothing,
        Action::EmitWheelV(3),
        Action::EmitWheelH(-2),
    ];
    let mut command = step(&mut event_loop, LoopEvent::FramesRead(Ok(actions.len())));
    for (index, action) in actions.into_iter().enumerate() {
        assert!(matches!(command, LoopCommand::ProcessFrame(at) if at == index));
        command = step(&mut event_loop, LoopEvent::FrameProcessed(Ok(action)));
        match action {
            Action::Nothing => {}
            Action::EmitWheelV(ticks) => {
                assert!(matches!(command, LoopCommand::EmitVertical(at) if at == ticks));
                command = step(&mut event_loop, LoopEvent::WheelMoved(Ok(())));
            }
            Action::EmitWheelH(ticks) => {
                assert!(matches!(command, LoopCommand::EmitHorizontal(at) if at == ticks));
                command = step(&mut event_loop, LoopEvent::WheelMoved(Ok(())));
            }
        }
        assert!(matches!(command, LoopCommand::Forward));
        command = step(&mut event_loop, LoopEvent::FrameForwarded(Ok(())));
    }
    assert!(matches!(command, LoopCommand::Poll { timeout_ms: -1 }));
    assert!(matches!(event_loop.state(), LoopState::Polling));
}

#[test]
fn time_limit_leads_to_one_reconciled_frame() {
    let mut event_loop = started();
    let command = step(&mut event_loop, LoopEvent::PollTimedOut);
    assert!(matches!(command, LoopCommand::Reconcile));
    let command = step(&mut event_loop, LoopEvent::Reconciled(Ok(())));
    assert!(matches!(command, LoopCommand::ProcessFrame(0)));
    step(&mut event_loop, LoopEvent::FrameProcessed(Ok(Action::Nothing)));
    let command = step(&mut event_loop, LoopEvent::FrameForwarded(Ok(())));
    assert!(matches!(command, LoopCommand::Poll { .. }));

    step(&mut event_loop, LoopEvent::PollTimedOut);
    let failed = LoopEvent::Reconciled(Err(IoFailure::other("mute")));
    let command = step(&mut event_loop, failed);
    assert!(matches!(
        command,
        LoopCommand::Stop(LoopExit::InputReadFailed { source }) if source.text == "mute"
    ));
}

#[test]
fn failed_outputs_stop_the_loop() {
    let mut event_loop = reading_frames();
    step(&mut event_loop, LoopEvent::FramesRead(Ok(1)));
    step(&mut event_loop, LoopEvent::FrameProcessed(Ok(Action::EmitWheelV(1))));
    let command = step(
        &mut event_loop,
        LoopEvent::WheelMoved(Err(IoFailure::other("write failed"))),
    );
    assert!(matches!(
        command,
        LoopCommand::Stop(LoopExit::VirtualWheelFailed { .. })
    ));

    let mut event_loop = reading_frames();
    step(&mut event_loop, LoopEvent::FramesRead(Ok(2)));
    step(&mut event_loop, LoopEvent::FrameProcessed(Ok(Action::Nothing)));
    let command = step(
        &mut event_loop,
        LoopEvent::FrameForwarded(Err(IoFailure::other("write failed"))),
    );
    assert!(matches!(
        command,
        LoopCommand::Stop(LoopExit::VirtualTouchpadFailed { .. })
    ));

    let mut event_loop = reading_frames();
    step(&mut event_loop, LoopEvent::FramesRead(Ok(1)));
    let command = step(
        &mut event_loop,
        LoopEvent::FrameProcessed(Err(IoFailure::other("bad frame"))),
    );
    assert!(matches!(
        command,
        LoopCommand::Stop(LoopExit::InputReadFailed { .. })
    ));
}

#[test]
fn only_a_requested_shutdown_ends_in_success() {
    assert!(exit_result(LoopExit::RequestedShutdown).is_ok());
    let failed = LoopExit::PollFailed {
        source: Errno { code: 5 },
    };
    assert!(matches!(
        exit_result(failed),
        Err(Error::Runtime { source: LoopExit::PollFailed { .. } })
    ));
}

#[test]
fn arguments_outrank_the_configuration() {
    let path = |text: &str| Some(PathBuf::from(text));
    assert_eq!(device_path(path("/a"), path("/b")), path("/a"));
    assert_eq!(device_path(None, path("/b")), path("/b"));
    assert_eq!(device_path(None, None), None);
    assert_eq!(
        config_request(path("/a"), PathBuf::from("/d")),
        ConfigRequest::Explicit(PathBuf::from("/a"))
    );
    assert_eq!(
        config_request(None, PathBuf::from("/d")),
        ConfigRequest::ImplicitDefault(PathBuf::from("/d"))
    );
    assert_eq!(log_filter("info", false), "letsnote_wheelpad=info");
    assert_eq!(log_filter("info", true), "letsnote_wheelpad=debug");
}
